pub use crate::config::RunnerConfig;
pub use crate::data_types::DataSet;
pub use crate::error::RecvErrorKind;
pub use crate::error::TaskError;
pub use crate::interval::TaskInterval;
pub use crate::interval::TimeWindow;
pub use crate::task::MultiplierTask;
pub use crate::task::Runnable;
pub use crate::task::TaskResult;
