//! The guest side: memory pools inside one module, without a host.
pub mod copy_laws;
pub mod count_laws;
pub mod directory;
pub mod dispatch;
pub mod dispatcher;
pub mod facade;
pub mod find_laws;
pub mod fold_laws;
pub mod indirect_laws;
pub mod kernel_laws;
pub mod kernels;
pub mod meaning;
pub mod module;
pub mod multi;
pub mod pool_laws;
pub mod shell_laws;
pub mod vector;
pub mod wat;
