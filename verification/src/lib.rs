//! Verified core of the FedoraWin desktop shell: parsing, planning and
//! bookkeeping logic that the Windows bridge and the web surfaces rely on.
pub mod osd;
pub mod performance;
pub mod portable;
pub mod shell;
pub mod text;
pub mod windows;
