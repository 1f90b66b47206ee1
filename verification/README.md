# arm_backend

Verified decision logic of a robot-arm backend: the camera, perception, scene,
controller-input, motion, web-gateway and service-status nodes. The library in `src/`
holds the rules, state machines, parsers and image-plane conversions of these nodes,
each with a Verus contract; the laws that relate several operations are stated as
public proof functions beside them.

- `src/` — the verified library (`lib.rs` lists the modules).
- `tests/` — tests run against the compiled library.
- `app/` — a small command-line front end for what needs files, processes or floats.
