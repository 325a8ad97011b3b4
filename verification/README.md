# Supernova

The verified core of a small game engine, written in Verus.

`src/` is the library, every function of which carries a contract that
Verus proves:

- `entity`, `world`: generational entity handles and the entity arena
  (spawning, despawning, slot recycling);
- `component`, `query`: sparse-set component storage and iteration over it;
- `event`: double-buffered event queues and readers;
- `schedule`, `system`: the ordered list of systems;
- `assets`, `scene`, `scripting`, `plugin`: the registries of the engine's
  subsystems;
- `network`: addresses, checksummed packets, connections and sockets;
- `color`, `numeral`: reading hexadecimal colors and decimal ports;
- `editor`, `engine`, `input`, `renderer`, `physics`: plain data and the
  decisions of the editor front end.

`tests/` exercises the library on concrete values. `app/` is the program
around it: floating-point math, physics, rendering with wgpu, the egui
editor, file and network I/O, and the type-keyed component registry.
Run `supernova` for the engine window, `supernova --editor` for the editor.
