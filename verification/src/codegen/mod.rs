pub mod model;
pub mod performance;
pub mod native;
pub mod generic_layout;
pub mod generic_definitions;
pub mod layout;
pub mod calls;
pub mod linker;
pub mod abi;
pub mod emission;
pub mod case_payload;
pub mod enums;
pub mod literals;
pub mod control_flow;
pub mod case;
