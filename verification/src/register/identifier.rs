//! Choosing the identifier of a new registration.

use crate::ids::{draw_id, is_short_id, ID_LEN};
use crate::register::registration::RegistrationView;
use crate::register::Rejections;
use crate::registry::{has_id, Registry};
use crate::text::text_of;
use vstd::prelude::*;
use vstd::string::StrSliceExecFns;

verus! {

/// The most identifiers that are drawn for one registration.
pub const MAX_ID_DRAWS: u32 = 65536;

/// The rejection that a requested identifier earns by itself, if any: where
/// requested identifiers are enforced (`reject`), one that is not eight
/// characters long, or one that is taken.
pub open spec fn id_rejection(
    id_req: Option<Seq<char>>,
    reject: bool,
    regs: Seq<RegistrationView>,
) -> Option<Rejections> {
    match id_req {
        Some(q) => if !reject {
            None
        } else if q.len() != ID_LEN {
            Some(Rejections::IncorrectLengthID)
        } else if has_id(regs, q) {
            Some(Rejections::InUseID)
        } else {
            None
        },
        None => None,
    }
}

/// The identifier that the request settles: the requested one, where it is
/// eight characters long and free. Otherwise the identifier is drawn.
pub open spec fn settled_id(id_req: Option<Seq<char>>, regs: Seq<RegistrationView>) -> Option<
    Seq<char>,
> {
    match id_req {
        Some(q) => if q.len() == ID_LEN && !has_id(regs, q) {
            Some(q)
        } else {
            None
        },
        None => None,
    }
}

/// Whether every identifier that can be drawn is free in `regs`: no
/// registration goes under eight lower-case hexadecimal digits.
pub open spec fn every_draw_is_free(regs: Seq<RegistrationView>) -> bool {
    forall|s: Seq<char>| #[trigger] is_short_id(s) ==> !has_id(regs, s)
}

/// What becomes of a candidate identifier.
#[derive(Debug, Clone, Copy, PartialEq, Eq, Structural)]
pub enum Fate {
    /// It is free: it is used.
    Accept,
    /// It is taken: another one is drawn.
    Redraw,
    /// It is taken, and was requested under enforcement: the request fails.
    Refuse,
}

/// What becomes of a candidate that is `taken` or not, `enforced` or not.
pub open spec fn fate_of(taken: bool, enforced: bool) -> Fate {
    if !taken {
        Fate::Accept
    } else if enforced {
        Fate::Refuse
    } else {
        Fate::Redraw
    }
}

/// The first candidate that a request gives: the requested identifier where
/// it is eight characters long; the rejection where it is not and requested
/// identifiers are enforced; else none, and one is drawn.
pub open spec fn first_candidate_of(id_req: Option<Seq<char>>, reject: bool) -> Result<
    Option<Seq<char>>,
    Rejections,
> {
    match id_req {
        Some(q) => if q.len() == ID_LEN {
            Ok(Some(q))
        } else if reject {
            Err(Rejections::IncorrectLengthID)
        } else {
            Ok(None)
        },
        None => Ok(None),
    }
}

/// The characters of a first candidate.
pub open spec fn candidate_text(r: Result<Option<String>, Rejections>) -> Result<
    Option<Seq<char>>,
    Rejections,
> {
    match r {
        Ok(c) => Ok(text_of(c)),
        Err(e) => Err(e),
    }
}

/// Computes [`first_candidate_of`].
pub fn first_candidate(id_req: Option<String>, reject: bool) -> (r: Result<
    Option<String>,
    Rejections,
>)
    ensures
        candidate_text(r) == first_candidate_of(text_of(id_req), reject),
{
    match id_req {
        Some(id) => {
            if id.as_str().unicode_len() == ID_LEN {
                Ok(Some(id))
            } else if reject {
                Err(Rejections::IncorrectLengthID)
            } else {
                Ok(None)
            }
        },
        None => Ok(None),
    }
}

/// Judges a candidate identifier against the registry.
pub fn judge(candidate: &str, enforced: bool, registrations: &Registry) -> (v: Fate)
    ensures
        v == fate_of(has_id(registrations@, candidate@), enforced),
{
    if !registrations.contains(candidate) {
        Fate::Accept
    } else if enforced {
        Fate::Refuse
    } else {
        Fate::Redraw
    }
}

/// Chooses the identifier of a new registration: the requested one where
/// it is eight characters long and free, else one that is drawn, again and
/// again while the one drawn is taken, `budget` times at most. Where
/// requested identifiers are enforced, a requested one of another length
/// or in use fails the request instead. An identifier is found whenever
/// the request settles one, and whenever one may be drawn and none that
/// can be drawn is taken; only where draws were taken can the choice end
/// in `NoFreeID`.
pub fn choose_id(
    id_req: Option<String>,
    reject: bool,
    registrations: &Registry,
    budget: u32,
) -> (r: Result<String, Rejections>)
    ensures
        match id_rejection(text_of(id_req), reject, registrations@) {
            Some(e) => r == Err::<String, Rejections>(e),
            None => match r {
                Ok(id) => {
                    &&& id@.len() == ID_LEN
                    &&& !has_id(registrations@, id@)
                    &&& match settled_id(text_of(id_req), registrations@) {
                        Some(q) => id@ == q,
                        None => is_short_id(id@) && budget > 0,
                    }
                },
                Err(e) => {
                    &&& e == Rejections::NoFreeID
                    &&& settled_id(text_of(id_req), registrations@) is None
                    &&& (budget == 0 || !every_draw_is_free(registrations@))
                },
            },
        },
{
    let ghost req = text_of(id_req);
    let enforced = id_req.is_some() && reject;
    let mut fixed = match first_candidate(id_req, reject) {
        Ok(c) => c,
        Err(e) => {
            return Err(e);
        },
    };
    let mut draws: u32 = 0;
    loop
        invariant
            draws <= budget,
            req == text_of(id_req),
            enforced == (req is Some && reject),
            first_candidate_of(req, reject) is Ok,
            fixed is Some ==> draws == 0 && first_candidate_of(req, reject) == Ok::<
                Option<Seq<char>>,
                Rejections,
            >(text_of(fixed)),
            fixed is None ==> settled_id(req, registrations@) is None && id_rejection(
                req,
                reject,
                registrations@,
            ) is None,
            every_draw_is_free(registrations@) ==> draws == 0,
        decreases budget - draws + (if fixed is Some { 1int } else { 0int }),
    {
        let candidate = match fixed {
            Some(id) => id,
            None => {
                if draws >= budget {
                    return Err(Rejections::NoFreeID);
                }
                draws += 1;
                draw_id()
            },
        };
        match judge(candidate.as_str(), enforced && draws == 0, registrations) {
            Fate::Accept => {
                return Ok(candidate);
            },
            Fate::Refuse => {
                return Err(Rejections::InUseID);
            },
            Fate::Redraw => {
                fixed = None;
            },
        }
    }
}

} // verus!
