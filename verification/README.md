# simhark

The logic around a simulated RoboCup SSL world, verified with Verus: the browser's hold on a running
simulation, the viewer's frames and snapshots, the replay log, the match runner, and the controls of
the AIs that drive the teams.

- `src/` is the library. Every function states in its contract what it returns or changes, and Verus
  proves it; public proof functions named `law_...` state what holds of the library as a whole.
- `tests/` runs the library on concrete values.
- `app/` is the program around it: files, sockets, arithmetic on positions and speeds, and the seams
  at which a physics engine, the AIs and a reader of SSL logs are linked in.

Numbers with decimals are held by their bit patterns (`number::Double`, `number::Single`): the
library compares and carries them; what has to be computed of them is handed in.
