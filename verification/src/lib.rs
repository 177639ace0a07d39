//! A watcher for algorithm exercises: it reruns an exercise's tests on every
//! save and moves the learner on, one exercise at a time.

pub mod channel;
pub mod hints;
pub mod line_laws;
pub mod module_laws;
pub mod module_run;
pub mod progress;
pub mod report;
pub mod report_laws;
pub mod session;
pub mod session_laws;
pub mod startup;
pub mod step_laws;
pub mod style;
pub mod text;
pub mod watch;
