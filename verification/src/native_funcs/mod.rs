pub mod clock_func;
