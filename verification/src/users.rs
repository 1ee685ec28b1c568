//! The names of the owners of processes, remembered once they are known.
//!
//! How a name is found for an owner is the caller's matter: each
//! operation that may need one takes the lookup as a function, and calls
//! it only for an owner that the table does not hold yet.

use crate::error::HarvestError;
use std::collections::HashMap;
use vstd::prelude::*;

verus! {

broadcast use vstd::std_specs::hash::group_hash_axioms;

/// The owners whose names are known. Entries are added, never changed or
/// removed.
pub struct UserTable {
    pub uid_user_mapping: HashMap<u32, String>,
}

/// The views of an optional string.
pub open spec fn name_view(name: Option<String>) -> Option<Seq<char>> {
    match name {
        Some(n) => Some(n@),
        None => None,
    }
}

/// The table once a lookup for `uid` has come back with `outcome`: a name
/// that was found is kept, a failure leaves no trace.
pub open spec fn names_after_lookup(
    names: Map<u32, Seq<char>>,
    uid: u32,
    outcome: Option<Seq<char>>,
) -> Map<u32, Seq<char>> {
    match outcome {
        Some(name) => names.insert(uid, name),
        None => names,
    }
}

/// The name shown for the owner `uid`: the one the table holds; else the
/// one that the lookup gave; and `N/A` for a process without an owner, or
/// an owner that the lookup does not know.
pub open spec fn resolved_name(
    names: Map<u32, Seq<char>>,
    uid: Option<u32>,
    outcome: Option<Seq<char>>,
) -> Seq<char> {
    match uid {
        Some(uid) => if names.contains_key(uid) {
            names[uid]
        } else {
            match outcome {
                Some(name) => name,
                None => "N/A"@,
            }
        },
        None => "N/A"@,
    }
}

/// The table once the owner `uid` has been resolved: as before where
/// there is no owner or the table held it, and else as the lookup's
/// `outcome` leaves it.
pub open spec fn names_after_resolve(
    names: Map<u32, Seq<char>>,
    uid: Option<u32>,
    outcome: Option<Seq<char>>,
) -> Map<u32, Seq<char>> {
    match uid {
        Some(uid) => if names.contains_key(uid) {
            names
        } else {
            names_after_lookup(names, uid, outcome)
        },
        None => names,
    }
}

/// Whether a lookup was due for `uid`, given what the table held.
pub open spec fn needs_lookup(names: Map<u32, Seq<char>>, uid: Option<u32>) -> bool {
    uid is Some && !names.contains_key(uid->0)
}

impl UserTable {
    /// The names that the table holds, by owner.
    pub open spec fn names(self) -> Map<u32, Seq<char>> {
        Map::new(
            |uid: u32| self.uid_user_mapping@.contains_key(uid),
            |uid: u32| self.uid_user_mapping@[uid]@,
        )
    }

    /// A table that knows nobody.
    pub fn new() -> (table: UserTable)
        ensures
            table.names() == Map::<u32, Seq<char>>::empty(),
    {
        let table = UserTable { uid_user_mapping: HashMap::new() };
        assert(table.names() =~= Map::<u32, Seq<char>>::empty());
        table
    }

    /// The name that the table holds for `uid`, if it holds one.
    pub fn cached(&self, uid: u32) -> (name: Option<String>)
        ensures
            name_view(name) == if self.names().contains_key(uid) {
                Some(self.names()[uid])
            } else {
                None
            },
    {
        match self.uid_user_mapping.get(&uid) {
            Some(name) => Some(name.clone()),
            None => None,
        }
    }

    /// Takes note of what a lookup for `uid` gave. A name is remembered
    /// and returned; a failure is reported and not remembered, so that
    /// the next request for `uid` looks it up again.
    pub fn record_lookup(&mut self, uid: u32, outcome: Option<String>) -> (result: Result<
        String,
        HarvestError,
    >)
        ensures
            final(self).names() == names_after_lookup(old(self).names(), uid, name_view(outcome)),
            match outcome {
                Some(name) => result matches Ok(found) && found@ == name@,
                None => result matches Err(HarvestError::QueryError(message)) && message@
                    == "Missing passwd"@,
            },
    {
        match outcome {
            Some(name) => {
                let found = name.clone();
                self.uid_user_mapping.insert(uid, name);
                assert(self.names() =~= old(self).names().insert(uid, name@));
                Ok(found)
            },
            None => Err(HarvestError::QueryError(String::from_str("Missing passwd"))),
        }
    }

    /// The name of the owner `uid`. A name that the table holds is
    /// returned as it is, and `lookup` is not called. Otherwise `lookup`
    /// is called once, with `uid`, and its answer goes through
    /// `record_lookup`.
    pub fn get_uid_to_username_mapping<F: Fn(u32) -> Option<String>>(
        &mut self,
        uid: u32,
        lookup: &F,
    ) -> (result: Result<String, HarvestError>)
        requires
            call_requires(lookup, (uid,)),
        ensures
            old(self).names().contains_key(uid) ==> final(self).names() == old(self).names() && (
            result matches Ok(found) && found@ == old(self).names()[uid]),
            !old(self).names().contains_key(uid) ==> exists|outcome: Option<String>|
                {
                    &&& call_ensures(lookup, (uid,), outcome)
                    &&& final(self).names() == names_after_lookup(
                        old(self).names(),
                        uid,
                        name_view(outcome),
                    )
                    &&& match outcome {
                        Some(name) => result matches Ok(found) && found@ == name@,
                        None => result matches Err(HarvestError::QueryError(message)) && message@
                            == "Missing passwd"@,
                    }
                },
    {
        match self.cached(uid) {
            Some(name) => Ok(name),
            None => {
                let outcome = lookup(uid);
                let ghost witness = outcome;
                let result = self.record_lookup(uid, outcome);
                assert(call_ensures(lookup, (uid,), witness));
                result
            },
        }
    }

    /// The name to show for the owner of a process. Nothing stops a tick:
    /// a process without an owner, and an owner that `lookup` does not
    /// know, are shown as `N/A`.
    pub fn resolve<F: Fn(u32) -> Option<String>>(&mut self, uid: Option<u32>, lookup: &F) -> (user:
        String)
        requires
            uid is Some ==> call_requires(lookup, (uid->0,)),
        ensures
            exists|outcome: Option<String>|
                {
                    &&& needs_lookup(old(self).names(), uid) ==> call_ensures(
                        lookup,
                        (uid->0,),
                        outcome,
                    )
                    &&& user@ == resolved_name(old(self).names(), uid, name_view(outcome))
                    &&& final(self).names() == names_after_resolve(
                        old(self).names(),
                        uid,
                        name_view(outcome),
                    )
                },
            old(self).names().submap_of(final(self).names()),
    {
        match uid {
            Some(uid_value) => {
                let ghost names_before = self.names();
                let result = self.get_uid_to_username_mapping(uid_value, lookup);
                let ghost witness: Option<String> = if names_before.contains_key(uid_value) {
                    None
                } else {
                    choose|outcome: Option<String>|
                        {
                            &&& call_ensures(lookup, (uid_value,), outcome)
                            &&& self.names() == names_after_lookup(
                                names_before,
                                uid_value,
                                name_view(outcome),
                            )
                            &&& match outcome {
                                Some(name) => result matches Ok(found) && found@ == name@,
                                None => result matches Err(HarvestError::QueryError(message))
                                    && message@ == "Missing passwd"@,
                            }
                        }
                };
                let user = match result {
                    Ok(name) => name,
                    Err(_) => String::from_str("N/A"),
                };
                assert(user@ == resolved_name(names_before, uid, name_view(witness)));
                assert(self.names() == names_after_resolve(
                    names_before,
                    uid,
                    name_view(witness),
                ));
                user
            },
            None => {
                let ghost witness: Option<String> = None;
                let user = String::from_str("N/A");
                assert(user@ == resolved_name(old(self).names(), uid, name_view(witness)));
                user
            },
        }
    }
}

} // verus!
