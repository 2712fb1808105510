mod config;
mod data_types;
mod error;
mod interval;
mod runner;
mod task;

pub mod prelude;

pub use config::RunnerConfig;
pub use data_types::entries_match;
pub use data_types::DataSet;
pub use error::RecvErrorKind;
pub use error::TaskError;
pub use interval::lemma_interval_conversions_consistent;
pub use interval::window_ending_at;
pub use interval::TaskInterval;
pub use interval::TimeWindow;
pub use runner::consolidate;
pub use runner::consolidator_transition;
pub use runner::consolidator_transition_spec;
pub use runner::dataset_map_of;
pub use runner::first_error;
pub use runner::first_error_spec;
pub use runner::first_primary_failure;
pub use runner::get_current_time;
pub use runner::is_primary_failure;
pub use runner::is_terminal;
pub use runner::lemma_dataset_covers_tasks;
pub use runner::lemma_first_error_all_ok;
pub use runner::lemma_no_primary_failure;
pub use runner::lemma_one_entry_per_task;
pub use runner::lemma_shutdown_clean;
pub use runner::lemma_timeout_fatal;
pub use runner::lemma_windows_contiguous;
pub use runner::names_of;
pub use runner::run_tick;
pub use runner::runner_transition;
pub use runner::runner_transition_spec;
pub use runner::shutdown_outcome;
pub use runner::supervise;
pub use runner::supervision_spec;
pub use runner::task_names_of;
pub use runner::time_in_unit;
pub use runner::Collection;
pub use runner::ConsolidatorEvent;
pub use runner::ConsolidatorStep;
pub use runner::RecvEvent;
pub use runner::RunnerEvent;
pub use runner::RunnerState;
pub use task::process_window;
pub use task::MultiplierTask;
pub use task::worker_transition;
pub use task::Runnable;
pub use task::TaskResult;
pub use task::WorkerEvent;
pub use task::WorkerStep;
