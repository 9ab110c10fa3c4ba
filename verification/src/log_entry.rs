//! One event of a game log, built field by field.
use vstd::prelude::*;

use crate::pattern::{capture_group, capture_group_exec, regex_captures, regex_captures_result};
use crate::text::{parse_i64, spec_parse_i64};

verus! {

/// A pilot field `name[corporation](ship)`: name, corporation and ship are
/// groups 1, 2 and 3.
pub const PILOT_PATTERN: &'static str = r"^(.*)\[(.*?)\]\((.*?)\)$";

/// One event of a game log. All text fields borrow from the log line.
#[derive(Debug)]
pub struct LogEntry<'s> {
    pub timestamp: &'s str,
    pub action: &'s str,
    pub from: &'s str,
    pub to: &'s str,
    pub module: &'s str,
    pub amount: i64,
    pub hit_type: &'s str,
    pub from_corp: &'s str,
    pub from_alli: &'s str,
    pub from_ship: &'s str,
    pub to_corp: &'s str,
    pub to_alli: &'s str,
    pub to_ship: &'s str,
}

/// The name, corporation and ship of a pilot field `name[corporation](ship)`,
/// when it has that form.
pub open spec fn pilot_parts(v: Seq<char>) -> Option<(Seq<char>, Seq<char>, Seq<char>)> {
    let caps = regex_captures_result(PILOT_PATTERN@, v);
    match (capture_group(caps, 1), capture_group(caps, 2), capture_group(caps, 3)) {
        (Some(a), Some(b), Some(c)) => Some((a, b, c)),
        _ => None,
    }
}

/// Splits a pilot field `name[corporation](ship)` into its three parts.
pub fn split_pilot<'s>(v: &'s str) -> (res: Option<(&'s str, &'s str, &'s str)>)
    ensures
        match res {
            Some((a, b, c)) => pilot_parts(v@) == Some((a@, b@, c@)),
            None => pilot_parts(v@) is None,
        },
{
    let caps = regex_captures(PILOT_PATTERN, v);
    let name = capture_group_exec(caps.clone(), 1);
    let corp = capture_group_exec(caps.clone(), 2);
    let ship = capture_group_exec(caps, 3);
    match (name, corp, ship) {
        (Some(a), Some(b), Some(c)) => Some((a, b, c)),
        _ => None,
    }
}

impl<'s> Default for LogEntry<'s> {
    /// An entry with every text empty and amount 0.
    fn default() -> (res: Self)
        ensures
            res == (LogEntry {
                timestamp: "",
                action: "",
                from: "",
                to: "",
                module: "",
                amount: 0,
                hit_type: "",
                from_corp: "",
                from_alli: "",
                from_ship: "",
                to_corp: "",
                to_alli: "",
                to_ship: "",
            }),
    {
        LogEntry {
            timestamp: "",
            action: "",
            from: "",
            to: "",
            module: "",
            amount: 0,
            hit_type: "",
            from_corp: "",
            from_alli: "",
            from_ship: "",
            to_corp: "",
            to_alli: "",
            to_ship: "",
        }
    }
}

impl<'s> LogEntry<'s> {
    /// An entry with the given fields.
    pub fn new(
        timestamp: &'s str,
        action: &'s str,
        from: &'s str,
        to: &'s str,
        module: &'s str,
        amount: i64,
        hit_type: &'s str,
        from_corp: &'s str,
        from_alli: &'s str,
        from_ship: &'s str,
        to_corp: &'s str,
        to_alli: &'s str,
        to_ship: &'s str,
    ) -> (res: Self)
        ensures
            res == (LogEntry {
                timestamp,
                action,
                from,
                to,
                module,
                amount,
                hit_type,
                from_corp,
                from_alli,
                from_ship,
                to_corp,
                to_alli,
                to_ship,
            }),
    {
        Self {
            timestamp,
            action,
            from,
            to,
            module,
            amount,
            hit_type,
            from_corp,
            from_alli,
            from_ship,
            to_corp,
            to_alli,
            to_ship,
        }
    }

    /// An entry at `timestamp` with every other text empty and amount 0.
    pub fn n(timestamp: &'s str) -> (res: Self)
        ensures
            res == (LogEntry {
                timestamp: timestamp,
                action: "",
                from: "",
                to: "",
                module: "",
                amount: 0,
                hit_type: "",
                from_corp: "",
                from_alli: "",
                from_ship: "",
                to_corp: "",
                to_alli: "",
                to_ship: "",
            }),
    {
        Self {
            timestamp: timestamp,
            action: "",
            from: "",
            to: "",
            module: "",
            amount: 0,
            hit_type: "",
            from_corp: "",
            from_alli: "",
            from_ship: "",
            to_corp: "",
            to_alli: "",
            to_ship: "",
        }
    }

    /// Sets the action.
    pub fn act(&mut self, v: &'s str) -> (res: &mut Self)
        ensures
            *res == (LogEntry { action: v, ..*old(self) }),
            *final(self) == *final(res),
    {
        self.action = v;
        self
    }

    /// Sets the source.
    pub fn from(&mut self, v: &'s str) -> (res: &mut Self)
        ensures
            *res == (LogEntry { from: v, ..*old(self) }),
            *final(self) == *final(res),
    {
        self.from = v;
        self
    }

    /// Sets the source from a pilot field `name[corporation](ship)`: its
    /// name, corporation and ship. A field of another form is taken as the
    /// source's name as it is.
    pub fn from_adv(&mut self, v: &'s str) -> (res: &mut Self)
        ensures
            match pilot_parts(v@) {
                Some((a, b, c)) => {
                    &&& res.from@ == a
                    &&& res.from_corp@ == b
                    &&& res.from_ship@ == c
                    &&& *res == (LogEntry {
                        from: res.from,
                        from_corp: res.from_corp,
                        from_ship: res.from_ship,
                        ..*old(self)
                    })
                },
                None => *res == (LogEntry { from: v, ..*old(self) }),
            },
            *final(self) == *final(res),
    {
        match split_pilot(v) {
            Some((name, corp, ship)) => {
                self.from = name;
                self.from_corp = corp;
                self.from_ship = ship;
            },
            None => {
                self.from = v;
            },
        }
        self
    }

    /// Sets the target.
    pub fn to(&mut self, v: &'s str) -> (res: &mut Self)
        ensures
            *res == (LogEntry { to: v, ..*old(self) }),
            *final(self) == *final(res),
    {
        self.to = v;
        self
    }

    /// Sets the target from a pilot field `name[corporation](ship)`: its
    /// name, corporation and ship. The field must have that form.
    pub fn to_adv(&mut self, v: &'s str) -> (res: &mut Self)
        requires
            pilot_parts(v@) is Some,
        ensures
            pilot_parts(v@) matches Some((a, b, c)) && {
                &&& res.to@ == a
                &&& res.to_corp@ == b
                &&& res.to_ship@ == c
            },
            *res == (LogEntry { to: res.to, to_corp: res.to_corp, to_ship: res.to_ship, ..*old(self) }),
            *final(self) == *final(res),
    {
        match split_pilot(v) {
            Some((name, corp, ship)) => {
                self.to = name;
                self.to_corp = corp;
                self.to_ship = ship;
            },
            None => {},
        }
        self
    }

    /// [`LogEntry::to_adv`] where the field has the pilot form (the answer
    /// is `true`); the entry stays as it is otherwise (`false`).
    pub fn try_to_adv(&mut self, v: &'s str) -> (res: bool)
        ensures
            res == (pilot_parts(v@) is Some),
            !res ==> *final(self) == *old(self),
            res ==> (pilot_parts(v@) matches Some((a, b, c)) && {
                &&& final(self).to@ == a
                &&& final(self).to_corp@ == b
                &&& final(self).to_ship@ == c
                &&& *final(self) == (LogEntry {
                    to: final(self).to,
                    to_corp: final(self).to_corp,
                    to_ship: final(self).to_ship,
                    ..*old(self)
                })
            }),
    {
        if split_pilot(v).is_none() {
            return false;
        }
        self.to_adv(v);
        true
    }

    /// Sets the module.
    pub fn module(&mut self, v: &'s str) -> (res: &mut Self)
        ensures
            *res == (LogEntry { module: v, ..*old(self) }),
            *final(self) == *final(res),
    {
        self.module = v;
        self
    }

    /// Sets the amount.
    pub fn amount(&mut self, v: i64) -> (res: &mut Self)
        ensures
            *res == (LogEntry { amount: v, ..*old(self) }),
            *final(self) == *final(res),
    {
        self.amount = v;
        self
    }

    /// Sets the amount from its decimal text (an optional sign, then
    /// digits), which must denote an `i64`.
    pub fn amount_str(&mut self, v: &'s str) -> (res: &mut Self)
        requires
            spec_parse_i64(v@) is Some,
        ensures
            *res == (LogEntry { amount: spec_parse_i64(v@)->0, ..*old(self) }),
            *final(self) == *final(res),
    {
        match parse_i64(v) {
            Some(a) => {
                self.amount = a;
            },
            None => {},
        }
        self
    }

    /// Sets the hit type.
    pub fn hit_type(&mut self, v: &'s str) -> (res: &mut Self)
        ensures
            *res == (LogEntry { hit_type: v, ..*old(self) }),
            *final(self) == *final(res),
    {
        self.hit_type = v;
        self
    }
}

} // verus!
