pub mod aggregate;
pub mod capture;
pub mod checks;
pub mod decode;
pub mod domain;
pub mod error;
pub mod integrity;
pub mod ioctl;
pub mod netinspect;
pub mod pipeline;
pub mod report;
pub mod scanner;
pub mod tables;
pub mod text;
pub mod ui;
pub mod window;
