//! A boot-and-recovery firmware core: a read-only Btrfs navigator, the
//! Linux EFI handoff checks, the RDF recovery stream receiver, the RBC
//! boot configuration parser, and the boot controller's decisions.
pub mod error;
pub mod bytes;
pub mod text;
pub mod block;
pub mod ondisk;
pub mod btrfs;
pub mod rbc;
pub mod pe;
pub mod handoff;
pub mod launcher;
pub mod chainload;
pub mod usb;
pub mod rdf;
pub mod controller;
pub mod logger;
