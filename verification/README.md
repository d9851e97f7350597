# Planetfall Engineer

The rules of a planetary-engineering puzzle game as a verified library:
deterministic integer terrain and fluid simulation (water, lava, steam and toxic
slurry, with reactions, drains, sources and an exact mass ledger), ten devices
with placement, plans, power allocation and per-tick behaviour, finite
fabrication stock and resource deposits, three campaign missions with their
tutorial, objectives, hazards and alerts, campaign progress, a fixed-tick game
session with saves, the fluids laboratory, deterministic campaign replays, and
the game controller that turns operator actions into state changes and leaves
saving and loading to the application.

- `src/` is the library; every function in it is verified by Verus against
  its `requires`/`ensures` contract.
- `tests/` exercises the library on concrete values, with a small content
  registry built in the tests.
- `app/` is a headless program around the library: it reads the game
  configuration and content registry from JSON, prints the campaign, showcase,
  laboratory and replay reports, and keeps a session in a JSON save slot.
