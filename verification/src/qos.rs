//! Quality-of-service levels and their lossless translation to and from the
//! numeric level codes that the external client library's enum stands for.

use vstd::prelude::*;

verus! {

/// Quality-of-service level governing message delivery guarantees.
#[derive(Clone, Copy, Debug, PartialEq, Eq, Structural)]
pub enum QoS {
    AtMostOnce,
    AtLeastOnce,
    ExactlyOnce,
}

impl QoS {
    /// The protocol-level numeric code of this level.
    pub open spec fn spec_level(self) -> u8 {
        match self {
            QoS::AtMostOnce => 0,
            QoS::AtLeastOnce => 1,
            QoS::ExactlyOnce => 2,
        }
    }

    /// The level that carries a given numeric code, if any does.
    pub open spec fn spec_of_level(level: u8) -> Option<QoS> {
        if level == 0 {
            Some(QoS::AtMostOnce)
        } else if level == 1 {
            Some(QoS::AtLeastOnce)
        } else if level == 2 {
            Some(QoS::ExactlyOnce)
        } else {
            None
        }
    }

    /// Translate this level to the external library's numeric code.
    pub fn to_external(self) -> (level: u8)
        ensures
            level == self.spec_level(),
    {
        match self {
            QoS::AtMostOnce => 0,
            QoS::AtLeastOnce => 1,
            QoS::ExactlyOnce => 2,
        }
    }

    /// Translate an external numeric code back to a level; codes above two
    /// name no level.
    pub fn from_external(level: u8) -> (q: Option<QoS>)
        ensures
            q == QoS::spec_of_level(level),
    {
        if level == 0 {
            Some(QoS::AtMostOnce)
        } else if level == 1 {
            Some(QoS::AtLeastOnce)
        } else if level == 2 {
            Some(QoS::ExactlyOnce)
        } else {
            None
        }
    }
}

/// Law: translation of quality-of-service levels round-trips losslessly.
/// Every external code that names a level comes back unchanged through the
/// pair of translations, and every level comes back unchanged as well.
pub proof fn lemma_qos_round_trip(level: u8)
    requires
        level <= 2,
    ensures
        QoS::spec_of_level(level) is Some,
        (QoS::spec_of_level(level)->Some_0).spec_level() == level,
{
}

/// Law: the reverse round trip is lossless too: a level mapped to its
/// external code and back is the same level.
pub proof fn lemma_qos_round_trip_back(q: QoS)
    ensures
        QoS::spec_of_level(q.spec_level()) == Some(q),
{
}

} // verus!
