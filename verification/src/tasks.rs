pub mod csv_task;
pub mod html_task;
pub mod http_task;
pub mod shell_task;
pub mod task;
