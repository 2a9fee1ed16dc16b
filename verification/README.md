# archipelago_game

The logic of a game client for a simulated archipelago at war, written in Verus.

The client shows a world that is simulated elsewhere and turns keys and clicks into orders. Everything
it decides is a function from plain values to plain values, with a contract that Verus proves: which
orders a key press gives, which buttons are open and why the others are closed, what the panels say, how
the map is coloured, where the camera goes, which days a frame runs, and how orders are recorded and
read back.

## Layout

- `src/` is the library. `src/lib.rs` lists its modules by subject.
- `tests/` runs the library on concrete values.
- `app/` is the window: drawing with Bevy, input devices, files and the frame loop. It holds no rules.

## Conventions

- A quantity (`quantity::Quantity`) is a single-precision number, kept as its bit pattern. Its order,
  its decimal text, and sums, products, quotients and roots (`arithmetic`) are specified exactly: the
  true result, rounded to the nearest quantity, ties to even.
- The world is a snapshot (`world::World`). `World::valid` says that every reference in it leads
  somewhere; `soundness` checks that at run time for callers outside the proofs.
- Functions that show or decide something have a spec function beside them which says what is shown or
  decided. Properties that hold across functions are public proof functions: recordings are read back
  as they were written, a button is open exactly if a click on it gives an order, keys never leave the
  state unsound, and others.
- The one outside call is `image::ImageFormat::from_path`, in `screenshot`.

## What the window needs

`app/` takes the simulation through the trait `sim::Simulation` and the text form of recordings through
`record::Json`. Bevy is used without a windowing backend feature; a program that opens a real window
adds one.
