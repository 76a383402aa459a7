//! The logic of the plugin tooling: the minter's naming rules, the
//! harness's manifest checks, the wizard's manifest rendering, the
//! configurator's format detection and merging, and the provisioner's
//! state and checksums.

pub mod minter;
pub mod harness;
pub mod wizard;
pub mod provisioner;
pub mod configurator;
pub mod templates;
pub mod abi;
pub mod wizard_flow;
