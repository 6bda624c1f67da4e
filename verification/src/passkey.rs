//! What the client lists about a stored key.
use vstd::prelude::*;
use vstd::string::StringExecFns;

verus! {

/// The listing data of one stored key.
pub struct PasskeyMetadata {
    label: String,
    encrypted: bool,
    hidden: bool,
}

/// The annotation shown after a key's label: nothing for a plain key, else
/// `": "` followed by `"<encrypted>"` for an encrypted key and `" <hidden>"`
/// for a hidden one.
pub open spec fn meta_text(encrypted: bool, hidden: bool) -> Seq<char> {
    if encrypted || hidden {
        ": "@ + (if encrypted {
            "<encrypted>"@
        } else {
            Seq::empty()
        }) + (if hidden {
            " <hidden>"@
        } else {
            Seq::empty()
        })
    } else {
        Seq::empty()
    }
}

impl PasskeyMetadata {
    /// The label, whether the key is encrypted, and whether it is hidden.
    pub closed spec fn spec_fields(&self) -> (Seq<char>, bool, bool) {
        (self.label@, self.encrypted, self.hidden)
    }

    /// The listing data of a key.
    pub fn new(label: String, encrypted: bool, hidden: bool) -> (m: PasskeyMetadata)
        ensures
            m.spec_fields() == (label@, encrypted, hidden),
    {
        PasskeyMetadata { label, encrypted, hidden }
    }

    /// The key's label.
    pub fn label(&self) -> (l: &str)
        ensures
            l@ == self.spec_fields().0,
    {
        self.label.as_str()
    }

    /// Whether the key is encrypted.
    pub fn encrypted(&self) -> (b: bool)
        ensures
            b == self.spec_fields().1,
    {
        self.encrypted
    }

    /// Whether the key is hidden from listings by default.
    pub fn hidden(&self) -> (b: bool)
        ensures
            b == self.spec_fields().2,
    {
        self.hidden
    }

    /// The annotation that the listing shows after the key's label.
    pub fn meta(&self) -> (meta: String)
        ensures
            meta@ == meta_text(self.spec_fields().1, self.spec_fields().2),
    {
        let mut meta = String::new();

        if self.encrypted || self.hidden {
            meta.append(": ");

            if self.encrypted {
                meta.append("<encrypted>");
            }

            if self.hidden {
                meta.append(" <hidden>");
            }
        }

        proof {
            if !self.encrypted && self.hidden {
                assert(": "@ + Seq::<char>::empty() + " <hidden>"@ =~= ": "@ + " <hidden>"@);
            }
            if self.encrypted && !self.hidden {
                assert(": "@ + "<encrypted>"@ + Seq::<char>::empty() =~= ": "@ + "<encrypted>"@);
            }
            if !self.encrypted && !self.hidden {
                assert(meta@ =~= Seq::<char>::empty());
            }
        }
        meta
    }
}

} // verus!
