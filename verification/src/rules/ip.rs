use vstd::prelude::*;

verus! {

/// The address families the ip rule can insist on. The rule itself leans on
/// the platform's address parser, which stays outside the verified library;
/// the check that uses this enum lives with the surrounding application
/// code.
pub enum IpVersions {
    V4,
    V6,
}

} // verus!
