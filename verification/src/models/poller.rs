//! The names under which this node polls for work.

use crate::models::tags::Tags;
use crate::text::{
    chars_of, ends_with, has_suffix, join, lemma_join_push, push_chars, string_from_chars,
    string_of, texts,
};
use vstd::prelude::*;

verus! {

/// The names to poll for, in order, and the place of the next one.
#[derive(Debug)]
pub struct Poller {
    models: Vec<String>,
    index: usize,
    default: String,
}

/// The names under which a model called `name` is polled: a name that ends
/// in `:latest` is polled as its bare name first, then as it stands.
pub open spec fn names_of(name: Seq<char>) -> Seq<Seq<char>> {
    if ends_with(name, ":latest"@) {
        seq![name.take(name.len() - ":latest"@.len()), name]
    } else {
        seq![name]
    }
}

/// The names to poll for, given the names of the catalog.
pub open spec fn poll_names(names: Seq<Seq<char>>) -> Seq<Seq<char>>
    decreases names.len(),
{
    if names.len() == 0 {
        Seq::empty()
    } else {
        poll_names(names.drop_last()) + names_of(names.last())
    }
}

/// The poll target of a list of names: the names joined by semicolons, or
/// the wildcard `/` when there is none.
pub open spec fn poll_target(names: Seq<Seq<char>>) -> Seq<char> {
    if names.len() == 0 {
        "/"@
    } else {
        join(names, ";"@)
    }
}

impl Poller {
    /// The names to poll for.
    pub closed spec fn models(&self) -> Seq<Seq<char>> {
        texts(self.models@)
    }

    /// The place of the name that `next` gives.
    pub closed spec fn index(&self) -> nat {
        self.index as nat
    }

    /// The name polled for when the catalog is empty.
    pub closed spec fn wildcard(&self) -> Seq<char> {
        self.default@
    }

    /// The place of the next name lies among the names, and the wildcard is
    /// `/`.
    pub open spec fn wf(&self) -> bool {
        &&& self.wildcard() == "/"@
        &&& (self.models().len() == 0 ==> self.index() == 0)
        &&& (self.models().len() > 0 ==> self.index() < self.models().len())
    }

    /// The poller for a catalog, at its first name.
    pub fn from(tags: Tags) -> (poller: Poller)
        ensures
            poller.wf(),
            poller.models() == poll_names(tags.names()),
            poller.index() == 0,
    {
        let mut models: Vec<String> = Vec::new();
        let suffix = chars_of(":latest");
        let mut i: usize = 0;
        assert(tags.names().take(0) =~= Seq::<Seq<char>>::empty());
        assert(texts(models@) =~= Seq::<Seq<char>>::empty());
        while i < tags.models.len()
            invariant
                i <= tags.models.len(),
                suffix@ == ":latest"@,
                texts(models@) == poll_names(tags.names().take(i as int)),
            decreases tags.models.len() - i,
        {
            let name = chars_of(tags.models[i].name.as_str());
            let ghost before = texts(models@);
            proof {
                assert(tags.names().take(i + 1).drop_last() =~= tags.names().take(i as int));
                assert(tags.names().take(i + 1).last() == name@);
            }
            if has_suffix(&name, &suffix) {
                let bare_len: usize = name.len() - suffix.len();
                models.push(string_of(&name, 0, bare_len));
                models.push(string_from_chars(&name));
                assert(name@.subrange(0, bare_len as int) =~= name@.take(bare_len as int));
                assert(texts(models@) =~= before + names_of(name@));
            } else {
                models.push(string_from_chars(&name));
                assert(texts(models@) =~= before + names_of(name@));
            }
            i += 1;
        }
        assert(tags.names().take(tags.models.len() as int) =~= tags.names());
        Poller { models, index: 0, default: "/".to_owned() }
    }

    /// The name to poll for next; the names come round in order. With no
    /// name to poll for it is the wildcard.
    pub fn next(&mut self) -> (name: Option<String>)
        requires
            old(self).wf(),
        ensures
            final(self).wf(),
            final(self).models() == old(self).models(),
            name is Some,
            old(self).models().len() == 0 ==> name->0@ == "/"@ && final(self).index() == 0,
            old(self).models().len() > 0 ==> name->0@ == old(self).models()[old(self).index() as int]
                && final(self).index() == (old(self).index() + 1) % old(self).models().len(),
    {
        if self.models.len() == 0 {
            return Some(self.default.clone());
        }
        let name = self.models[self.index].clone();
        proof {
            let at = self.index as int;
            let n = self.models.len() as int;
            assert((at + 1) % n == (if at + 1 == n {
                0
            } else {
                at + 1
            })) by (nonlinear_arith)
                requires
                    0 <= at < n,
            ;
            assert(self.models()[at] == name@);
        }
        self.index = if self.index + 1 == self.models.len() {
            0
        } else {
            self.index + 1
        };
        Some(name)
    }

    /// The poll target: all names in order.
    pub fn get_models_target(&self) -> (target: String)
        ensures
            target@ == poll_target(self.models()),
    {
        if self.models.len() == 0 {
            return "/".to_owned();
        }
        let mut out: Vec<char> = Vec::new();
        let sep = chars_of(";");
        let mut i: usize = 0;
        assert(self.models().take(0) =~= Seq::<Seq<char>>::empty());
        while i < self.models.len()
            invariant
                i <= self.models.len(),
                sep@ == ";"@,
                out@ == join(self.models().take(i as int), ";"@),
            decreases self.models.len() - i,
        {
            let part = chars_of(self.models[i].as_str());
            proof {
                lemma_join_push(self.models().take(i as int), part@, ";"@);
                assert(self.models().take(i as int).push(part@) =~= self.models().take(i + 1));
            }
            if i > 0 {
                push_chars(&mut out, &sep);
            }
            push_chars(&mut out, &part);
            i += 1;
        }
        assert(self.models().take(self.models.len() as int) =~= self.models());
        string_from_chars(&out)
    }
}

} // verus!
