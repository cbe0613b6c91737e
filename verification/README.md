# algoprofile

A small algorithm-profiling toolkit, verified with Verus.

- `src/` is the verified library:
  - `two_sum`: the two-sum scan, its random test data (`RegularArgs::new_test_data`)
    and the profiler that times it over a schedule of input sizes (`algo_profile`);
  - `algo_input`: the generator that an input struct's field attributes
    (`n_size`, `element_range`) describe (`data_generation`), and the random inputs
    it makes (`TestDataPlan::generate`), which `RegularArgs::new_test_data` uses;
  - `data_generation`: vectors of default or random values;
  - `counter_app`, `listed_search`, `main_ui`: the state of the terminal UI — a
    wrapping counter, a text input with a character cursor over UTF-8 text, and the
    focus handling between components;
  - `catalog`: the algorithms that the command line knows;
  - `input`, `clock`: key presses and screen areas as plain values; the clock.
- `app/` is the terminal program around it: the ratatui screen, crossterm events and
  the clap command line.
- `tests/` runs the library on concrete values.
