//! Choice of the process's tracing set-up.
use vstd::prelude::*;

verus! {

/// Whether distributed tracing is on.
#[derive(Debug, Clone, Copy, PartialEq, Eq, Structural)]
pub enum Tracing {
    Disabled,
    Enabled,
}

impl Default for Tracing {
    fn default() -> (r: Self)
        ensures
            r == Tracing::Disabled,
    {
        Tracing::Disabled
    }
}

impl Tracing {
    /// The name of the mode, as given on the command line.
    pub open spec fn name_spec(&self) -> Seq<char> {
        match self {
            Tracing::Disabled => "disabled"@,
            Tracing::Enabled => "enabled"@,
        }
    }

    /// The name of the mode, as given on the command line.
    pub fn to_string(&self) -> (r: String)
        ensures
            r@ == self.name_spec(),
    {
        match self {
            Tracing::Disabled => String::from_str("disabled"),
            Tracing::Enabled => String::from_str("enabled"),
        }
    }
}

/// The set-up to install.
pub enum TracingSetup {
    /// Plain logging to the console.
    Logging,
    /// Spans exported to a Jaeger agent, under this service name.
    Jaeger { service: String },
}

/// Which set-up a service named `name` installs in mode `tracing`.
pub fn init_tracing(name: &str, tracing: Tracing) -> (r: TracingSetup)
    ensures
        match tracing {
            Tracing::Disabled => r is Logging,
            Tracing::Enabled => r matches TracingSetup::Jaeger { service } && service@ == name@,
        },
{
    match tracing {
        Tracing::Disabled => TracingSetup::Logging,
        Tracing::Enabled => TracingSetup::Jaeger { service: name.to_string() },
    }
}

} // verus!
