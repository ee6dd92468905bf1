//! The two fixed message catalogs: a casual one and a formal one. Each
//! maps the same set of semantic keys to template strings; placeholders
//! such as `UTILITY` are substituted by the caller before display.

use vstd::prelude::*;

use crate::text::str_eq;

verus! {

/// Why a catalog lookup failed.
#[derive(Clone, Copy, Debug, PartialEq, Eq, Structural)]
pub enum MessageError {
    /// The catalog does not define the queried key. Both catalogs define
    /// the same keys, so this marks an internal inconsistency, not a
    /// user mistake.
    MissingKey,
}

/// The template under the first entry that carries the key.
pub open spec fn lookup(entries: Seq<(Seq<char>, Seq<char>)>, key: Seq<char>) -> Option<Seq<char>>
    decreases entries.len(),
{
    if entries.len() == 0 {
        None
    } else if entries[0].0 == key {
        Some(entries[0].1)
    } else {
        lookup(entries.skip(1), key)
    }
}

/// One catalog: an ordered list of key-template pairs.
pub struct MessageCatalog {
    pub entries: Vec<(String, String)>,
}

impl View for MessageCatalog {
    type V = Seq<(Seq<char>, Seq<char>)>;

    open spec fn view(&self) -> Seq<(Seq<char>, Seq<char>)> {
        self.entries.deep_view()
    }
}

impl MessageCatalog {
    /// The template under the key, or `MissingKey` when the catalog does
    /// not define it.
    pub fn get(&self, key: &str) -> (r: Result<&String, MessageError>)
        ensures
            match r {
                Ok(s) => lookup(self@, key@) == Some(s@),
                Err(_) => lookup(self@, key@) is None,
            },
    {
        let ghost all = self@;
        let mut i: usize = 0;
        proof {
            assert(all.skip(0) =~= all);
        }
        while i < self.entries.len()
            invariant
                all == self@,
                0 <= i <= self.entries.len(),
                lookup(all, key@) == lookup(all.skip(i as int), key@),
            decreases self.entries.len() - i,
        {
            proof {
                assert(all.skip(i as int)[0] == all[i as int]);
                assert(all.skip(i as int).skip(1) =~= all.skip(i + 1));
            }
            if str_eq(self.entries[i].0.as_str(), key) {
                proof {
                    assert(all[i as int].0 == self.entries@[i as int].0@);
                }
                return Ok(&self.entries[i].1);
            }
            proof {
                assert(all[i as int].0 == self.entries@[i as int].0@);
            }
            i += 1;
        }
        proof {
            assert(all.skip(i as int) =~= Seq::<(Seq<char>, Seq<char>)>::empty());
        }
        Err(MessageError::MissingKey)
    }
}

/// The casual catalog's entries.
pub open spec fn jokey_entries() -> Seq<(Seq<char>, Seq<char>)> {
    seq![
        ("cancelled"@, "Okay, I won't touch it."@),
        (
            "confirm_deletion"@,
            "Tell UTILITY's config to frick off? This will remove all data in UTILITY_CONFIG_PATH and remove the folder itself."@,
        ),
        ("failure"@, "Could not tell UTILITY to frick off, because ERROR."@),
        ("literal_options"@, "...That is VERY funny."@),
        ("no_argument"@, "What would you like to frick off?"@),
        ("no_config"@, "There is no data in UTILITY's config, so it cannot frick off."@),
        (
            "no_such_utility"@,
            "I don't know about a utility named UTILITY. You should add it in FRICKOFF_CONFIG_PATH."@,
        ),
        (
            "success"@,
            "Fricking-off complete. Want to make a new Git repository in UTILITY_CONFIG_PATH?"@,
        ),
    ]
}

/// The formal catalog's entries.
pub open spec fn serious_entries() -> Seq<(Seq<char>, Seq<char>)> {
    seq![
        ("cancelled"@, "Operation cancelled."@),
        (
            "confirm_deletion"@,
            "Remove all data in UTILITY_CONFIG_PATH? This action is not reversible."@,
        ),
        ("failure"@, "Deletion unsuccessful. Reason: ERROR."@),
        (
            "literal_options"@,
            "User attempted to literally use --options. They must think they're very clever."@,
        ),
        ("no_argument"@, "No utility specified. Cannot proceed."@),
        ("no_config"@, "UTILITY_CONFIG_PATH does not exist or the directory is empty."@),
        (
            "no_such_utility"@,
            "No such utility named UTILITY. Consider adding its path in FRICKOFF_CONFIG_PATH."@,
        ),
        (
            "success"@,
            "Deletion succeeded. Initialise a new Git repository at UTILITY_CONFIG_PATH?"@,
        ),
    ]
}

/// Both catalogs, casual and formal.
pub struct Messages {
    pub jokey: MessageCatalog,
    pub serious: MessageCatalog,
}

impl Messages {
    /// Builds the two catalogs with their fixed entries.
    pub fn new() -> (m: Messages)
        ensures
            m.jokey@ == jokey_entries(),
            m.serious@ == serious_entries(),
    {
        let mut jokey: Vec<(String, String)> = Vec::new();
        jokey.push(("cancelled".to_owned(), "Okay, I won't touch it.".to_owned()));
        jokey.push((
            "confirm_deletion".to_owned(),
            "Tell UTILITY's config to frick off? This will remove all data in UTILITY_CONFIG_PATH and remove the folder itself.".to_owned(),
        ));
        jokey.push((
            "failure".to_owned(),
            "Could not tell UTILITY to frick off, because ERROR.".to_owned(),
        ));
        jokey.push(("literal_options".to_owned(), "...That is VERY funny.".to_owned()));
        jokey.push(("no_argument".to_owned(), "What would you like to frick off?".to_owned()));
        jokey.push((
            "no_config".to_owned(),
            "There is no data in UTILITY's config, so it cannot frick off.".to_owned(),
        ));
        jokey.push((
            "no_such_utility".to_owned(),
            "I don't know about a utility named UTILITY. You should add it in FRICKOFF_CONFIG_PATH.".to_owned(),
        ));
        jokey.push((
            "success".to_owned(),
            "Fricking-off complete. Want to make a new Git repository in UTILITY_CONFIG_PATH?".to_owned(),
        ));
        let mut serious: Vec<(String, String)> = Vec::new();
        serious.push(("cancelled".to_owned(), "Operation cancelled.".to_owned()));
        serious.push((
            "confirm_deletion".to_owned(),
            "Remove all data in UTILITY_CONFIG_PATH? This action is not reversible.".to_owned(),
        ));
        serious.push(("failure".to_owned(), "Deletion unsuccessful. Reason: ERROR.".to_owned()));
        serious.push((
            "literal_options".to_owned(),
            "User attempted to literally use --options. They must think they're very clever.".to_owned(),
        ));
        serious.push(("no_argument".to_owned(), "No utility specified. Cannot proceed.".to_owned()));
        serious.push((
            "no_config".to_owned(),
            "UTILITY_CONFIG_PATH does not exist or the directory is empty.".to_owned(),
        ));
        serious.push((
            "no_such_utility".to_owned(),
            "No such utility named UTILITY. Consider adding its path in FRICKOFF_CONFIG_PATH.".to_owned(),
        ));
        serious.push((
            "success".to_owned(),
            "Deletion succeeded. Initialise a new Git repository at UTILITY_CONFIG_PATH?".to_owned(),
        ));
        let m = Messages {
            jokey: MessageCatalog { entries: jokey },
            serious: MessageCatalog { entries: serious },
        };
        proof {
            assert(m.jokey@ =~= jokey_entries());
            assert(m.serious@ =~= serious_entries());
        }
        m
    }
}

/// Two catalogs whose entries carry the same keys in the same order
/// answer the same queries with the same success.
pub proof fn lemma_same_keys_same_success(
    a: Seq<(Seq<char>, Seq<char>)>,
    b: Seq<(Seq<char>, Seq<char>)>,
    key: Seq<char>,
)
    requires
        a.len() == b.len(),
        forall|i: int| 0 <= i < a.len() ==> (#[trigger] a[i]).0 == b[i].0,
    ensures
        lookup(a, key) is Some <==> lookup(b, key) is Some,
    decreases a.len(),
{
    if a.len() == 0 {
    } else {
        assert(a[0].0 == b[0].0);
        assert forall|i: int| 0 <= i < a.skip(1).len() implies (#[trigger] a.skip(1)[i]).0
            == b.skip(1)[i].0 by {
            assert(a.skip(1)[i] == a[i + 1]);
            assert(b.skip(1)[i] == b[i + 1]);
        }
        lemma_same_keys_same_success(a.skip(1), b.skip(1), key);
    }
}

/// The casual and the formal catalog define exactly the same keys: a
/// lookup succeeds in one exactly when it succeeds in the other.
pub proof fn lemma_catalogs_share_keys(key: Seq<char>)
    ensures
        lookup(jokey_entries(), key) is Some <==> lookup(serious_entries(), key) is Some,
{
    lemma_same_keys_same_success(jokey_entries(), serious_entries(), key);
}

} // verus!
