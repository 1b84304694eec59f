//! A life-cycle test harness for devices driven over a serial console: the
//! classification of console lines, the commands written back, the counter
//! file kept per device, the pool of relay pins, and the menu state machine
//! that drives each device through its BP, temperature and reboot tests.
pub mod counters;
pub mod cycle;
pub mod device;
pub mod gpio_facade;
pub mod tty;
