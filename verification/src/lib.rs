//! Backend core for provisioning a local Python engine runtime: platform
//! resolution for the package-management tool, archive entry selection and
//! tree extraction planning, engine status computation, the setup state
//! machine, subprocess isolation environments, and the config file codec.
//!
//! All filesystem, network and subprocess work is left to the surrounding
//! application; this crate computes what to do and proves it correct.

pub mod archive;
pub mod byteseq;
pub mod config;
pub mod paths;
pub mod platform;
pub mod setup;
pub mod status;
pub mod sync;
pub mod tree;
