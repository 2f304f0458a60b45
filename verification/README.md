# evolution_sim

A grid-world predator/prey simulation. Carnivores hunt herbivores, herbivores
eat grass; animals that run out of energy die, and when a generation ends the
next one is bred from the best animals of the last.

- `src/` is the verified engine: the grids and animal lists with their
  invariant (`map`), what an animal senses (`sensing`), the animals' energy
  rules (`animal`, `carnivore`, `herbivore`), the per-tick record (`record`),
  the generation-by-generation driver (`simulation`) and the stated laws
  (`laws`). Random placement draws indices through one small wrapper of
  `rand` (`random`).
- `app/` is the program around it: the floating-point neural networks that
  choose each animal's action, the JSON output, and the HTTP server.
