//! Severity levels and their conversions.
use vstd::prelude::*;
use crate::module_abstract::ModuleAbstract;
use crate::trace::OneTrace;

verus! {

/// The eight severities, from the least to the most severe.
#[derive(Clone, Copy, Debug, PartialEq, Eq, Structural, Hash)]
pub enum Level {
    /// Debugging information during development.
    DEBUG,
    /// Debugging information specific to errors.
    DEBUGERR,
    /// Normal operation.
    NORMAL,
    /// Events that deserve attention but are not errors.
    NOTICE,
    /// Warning or error reported by another system.
    NOTICEDERR,
    /// A situation that requires attention.
    WARNING,
    /// An error that must be corrected.
    ERROR,
    /// An error that prevents normal operation.
    FATAL,
}

/// Dense rank of a level: DEBUG is 0, FATAL is 7.
pub open spec fn rank(l: Level) -> nat {
    match l {
        Level::DEBUG => 0,
        Level::DEBUGERR => 1,
        Level::NORMAL => 2,
        Level::NOTICE => 3,
        Level::NOTICEDERR => 4,
        Level::WARNING => 5,
        Level::ERROR => 6,
        Level::FATAL => 7,
    }
}

/// The level of a rank; every rank from 7 up is FATAL.
pub open spec fn level_of_rank(r: nat) -> Level {
    if r == 0 {
        Level::DEBUG
    } else if r == 1 {
        Level::DEBUGERR
    } else if r == 2 {
        Level::NORMAL
    } else if r == 3 {
        Level::NOTICE
    } else if r == 4 {
        Level::NOTICEDERR
    } else if r == 5 {
        Level::WARNING
    } else if r == 6 {
        Level::ERROR
    } else {
        Level::FATAL
    }
}

/// The full name of a level.
pub open spec fn level_name(l: Level) -> Seq<char> {
    match l {
        Level::DEBUG => seq!['D', 'E', 'B', 'U', 'G'],
        Level::DEBUGERR => seq!['D', 'E', 'B', 'U', 'G', 'E', 'R', 'R'],
        Level::NORMAL => seq!['N', 'O', 'R', 'M', 'A', 'L'],
        Level::NOTICE => seq!['N', 'O', 'T', 'I', 'C', 'E'],
        Level::NOTICEDERR => seq!['N', 'O', 'T', 'I', 'C', 'E', 'D', 'E', 'R', 'R'],
        Level::WARNING => seq!['W', 'A', 'R', 'N', 'I', 'N', 'G'],
        Level::ERROR => seq!['E', 'R', 'R', 'O', 'R'],
        Level::FATAL => seq!['F', 'A', 'T', 'A', 'L'],
    }
}

/// The four-character display code of a level.
pub open spec fn level_code(l: Level) -> Seq<char> {
    match l {
        Level::DEBUG => seq!['D', 'B', 'U', 'G'],
        Level::DEBUGERR => seq!['E', 'R', 'R', 'D'],
        Level::NORMAL => seq![' ', ' ', ' ', ' '],
        Level::NOTICE => seq!['N', 'O', 'T', 'I'],
        Level::NOTICEDERR => seq!['N', 'O', 'E', 'R'],
        Level::WARNING => seq!['W', 'A', 'R', 'N'],
        Level::ERROR => seq!['E', 'R', 'R', ' '],
        Level::FATAL => seq!['F', 'A', 'T', 'A'],
    }
}

impl Level {
    /// The full name of the level ("DEBUG", "NOTICEDERR", ...).
    pub fn to_string(&self) -> (r: String)
        ensures
            r@ == level_name(*self),
    {
        let s = match *self {
            Level::DEBUG => String::from_str("DEBUG"),
            Level::DEBUGERR => String::from_str("DEBUGERR"),
            Level::NORMAL => String::from_str("NORMAL"),
            Level::NOTICE => String::from_str("NOTICE"),
            Level::NOTICEDERR => String::from_str("NOTICEDERR"),
            Level::WARNING => String::from_str("WARNING"),
            Level::ERROR => String::from_str("ERROR"),
            Level::FATAL => String::from_str("FATAL"),
        };
        proof {
            reveal_strlit("DEBUG");
            reveal_strlit("DEBUGERR");
            reveal_strlit("NORMAL");
            reveal_strlit("NOTICE");
            reveal_strlit("NOTICEDERR");
            reveal_strlit("WARNING");
            reveal_strlit("ERROR");
            reveal_strlit("FATAL");
        }
        assert(s@ =~= level_name(*self));
        s
    }

    /// The four-character code used to align rendered lines ("DBUG", "ERR ", ...).
    pub fn convert4LengthString(&self) -> (r: String)
        ensures
            r@ == level_code(*self),
            r@.len() == 4,
    {
        let s = match *self {
            Level::DEBUG => String::from_str("DBUG"),
            Level::DEBUGERR => String::from_str("ERRD"),
            Level::NORMAL => String::from_str("    "),
            Level::NOTICE => String::from_str("NOTI"),
            Level::NOTICEDERR => String::from_str("NOER"),
            Level::WARNING => String::from_str("WARN"),
            Level::ERROR => String::from_str("ERR "),
            Level::FATAL => String::from_str("FATA"),
        };
        proof {
            reveal_strlit("DBUG");
            reveal_strlit("ERRD");
            reveal_strlit("    ");
            reveal_strlit("NOTI");
            reveal_strlit("NOER");
            reveal_strlit("WARN");
            reveal_strlit("ERR ");
            reveal_strlit("FATA");
        }
        assert(s@ =~= level_code(*self));
        s
    }

    /// The dense rank of the level, used for threshold comparisons.
    pub fn tou8(&self) -> (r: u8)
        ensures
            r as nat == rank(*self),
            r <= 7,
    {
        match *self {
            Level::DEBUG => 0,
            Level::DEBUGERR => 1,
            Level::NORMAL => 2,
            Level::NOTICE => 3,
            Level::NOTICEDERR => 4,
            Level::WARNING => 5,
            Level::ERROR => 6,
            Level::FATAL => 7,
        }
    }

    /// The lowest level (DEBUG).
    pub fn min() -> (r: Level)
        ensures
            r == Level::DEBUG,
            forall|l: Level| rank(r) <= rank(l),
    {
        Level::DEBUG
    }

    /// The highest level (FATAL).
    pub fn max() -> (r: Level)
        ensures
            r == Level::FATAL,
            forall|l: Level| rank(l) <= rank(r),
    {
        Level::FATAL
    }

    /// Hands `oneTrace` to the callback of `module` that matches its level.
    pub fn launchModuleFunc<M: ModuleAbstract + ?Sized>(module: &M, oneTrace: &OneTrace) {
        match oneTrace.level {
            Level::DEBUG => module.event_onDebug(oneTrace),
            Level::DEBUGERR => module.event_onDebugErr(oneTrace),
            Level::NORMAL => module.event_onNormal(oneTrace),
            Level::NOTICE => module.event_onNotice(oneTrace),
            Level::NOTICEDERR => module.event_onNoticeErr(oneTrace),
            Level::WARNING => module.event_onWarning(oneTrace),
            Level::ERROR => module.event_onError(oneTrace),
            Level::FATAL => module.event_onFatal(oneTrace),
        }
    }

    /// The level of a rank; ranks from 7 up give FATAL.
    pub fn from_rank(value: u8) -> (r: Level)
        ensures
            r == level_of_rank(value as nat),
    {
        match value {
            0 => Level::DEBUG,
            1 => Level::DEBUGERR,
            2 => Level::NORMAL,
            3 => Level::NOTICE,
            4 => Level::NOTICEDERR,
            5 => Level::WARNING,
            6 => Level::ERROR,
            _ => Level::FATAL,
        }
    }
}

impl From<u8> for Level {
    fn from(value: u8) -> (r: Level) {
        Level::from_rank(value)
    }
}

impl vstd::std_specs::convert::FromSpecImpl<u8> for Level {
    open spec fn obeys_from_spec() -> bool {
        true
    }

    open spec fn from_spec(v: u8) -> Level {
        level_of_rank(v as nat)
    }
}

/// Ranks order the levels totally, and rank and level agree both ways.
pub proof fn lemma_rank_round_trip(l: Level, m: Level)
    ensures
        level_of_rank(rank(l)) == l,
        rank(l) <= 7,
        rank(l) == rank(m) <==> l == m,
{
}

} // verus!
