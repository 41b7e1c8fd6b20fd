//! Points in time, as the catalogue stores them.

use vstd::prelude::*;

verus! {

/// A point in time on the UTC clock: whole seconds since the start of 1970
/// and the nanoseconds into that second.
#[derive(Clone, Copy, Debug, PartialEq, Eq, Structural)]
pub struct DataHora {
    pub segundos: i64,
    pub nanos: u32,
}

impl DataHora {
    /// Whether `self` comes strictly before `outro`.
    pub open spec fn antes(self, outro: DataHora) -> bool {
        self.segundos < outro.segundos || (self.segundos == outro.segundos && self.nanos
            < outro.nanos)
    }

    /// Whether `self` comes strictly before `outro`.
    pub fn eh_antes(&self, outro: &DataHora) -> (r: bool)
        ensures
            r == self.antes(*outro),
    {
        self.segundos < outro.segundos || (self.segundos == outro.segundos && self.nanos
            < outro.nanos)
    }

    /// The current time.
    ///
    /// Trusted: calls `chrono::Utc::now` and reads the seconds and the
    /// nanoseconds of the naive UTC date and time it returns. Nothing is
    /// claimed of the value, which is the clock's. `Utc::now` panics on a
    /// machine whose clock stands before 1970.
    #[verifier::external_body]
    pub(crate) fn agora() -> (r: DataHora) {
        let t = chrono::Utc::now().naive_utc().and_utc();
        DataHora { segundos: t.timestamp(), nanos: t.timestamp_subsec_nanos() }
    }
}

} // verus!
