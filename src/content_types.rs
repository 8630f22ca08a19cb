use vstd::prelude::*;

verus! {

/// What a sequence of `(extension, content type)` entries maps `key` to: the
/// value of the last entry with that key, if any.
pub open spec fn lookup(entries: Seq<(Seq<char>, Seq<char>)>, key: Seq<char>) -> Option<Seq<char>>
    decreases entries.len(),
{
    if entries.len() == 0 {
        None
    } else if entries.last().0 == key {
        Some(entries.last().1)
    } else {
        lookup(entries.drop_last(), key)
    }
}

/// The mathematical map described by a sequence of entries, later entries
/// taking precedence over earlier ones.
pub open spec fn map_of(entries: Seq<(Seq<char>, Seq<char>)>) -> Map<Seq<char>, Seq<char>> {
    Map::new(|k: Seq<char>| lookup(entries, k) is Some, |k: Seq<char>| lookup(entries, k)->0)
}

/// The entries of a vector of string pairs, as sequences of characters.
pub open spec fn pairs_view(v: Seq<(String, String)>) -> Seq<(Seq<char>, Seq<char>)> {
    v.map_values(|e: (String, String)| (e.0@, e.1@))
}

/// A table from file extension (without the dot, e.g. `js`) to the content
/// type served for files with that extension.
pub struct ContentTypes {
    entries: Vec<(String, String)>,
}

impl ContentTypes {
    /// The entries as plain sequences of characters.
    pub closed spec fn entries_view(&self) -> Seq<(Seq<char>, Seq<char>)> {
        pairs_view(self.entries@)
    }

    /// The table as a map from extension to content type.
    pub closed spec fn view(&self) -> Map<Seq<char>, Seq<char>> {
        map_of(self.entries_view())
    }

    /// An empty table.
    pub fn new() -> (r: ContentTypes)
        ensures
            r@ == Map::<Seq<char>, Seq<char>>::empty(),
    {
        let r = ContentTypes { entries: Vec::new() };
        assert(r.entries_view() =~= Seq::empty());
        assert(r@ =~= Map::<Seq<char>, Seq<char>>::empty());
        r
    }

    /// The content type registered for `extension`, if any.
    pub fn get(&self, extension: &str) -> (r: Option<&str>)
        ensures
            r is Some <==> self@.contains_key(extension@),
            r is Some ==> r->0@ == self@[extension@],
    {
        let ghost ev = self.entries_view();
        let key = extension.to_owned();
        let mut i: usize = self.entries.len();
        assert(ev.take(i as int) =~= ev);
        while i > 0
            invariant
                i <= self.entries@.len(),
                ev == self.entries_view(),
                key@ == extension@,
                lookup(ev, key@) == lookup(ev.take(i as int), key@),
            decreases i,
        {
            assert(ev.take(i as int).drop_last() =~= ev.take(i - 1));
            if self.entries[i - 1].0 == key {
                return Some(self.entries[i - 1].1.as_str());
            }
            i = i - 1;
        }
        assert(ev.take(0) =~= Seq::<(Seq<char>, Seq<char>)>::empty());
        None
    }

    /// Removes the entry for `extension`, if there is one.
    pub fn remove(&mut self, extension: &str)
        ensures
            final(self)@ == old(self)@.remove(extension@),
    {
        let ghost ev = old(self).entries_view();
        let key = extension.to_owned();
        let mut kept: Vec<(String, String)> = Vec::new();
        let mut i: usize = 0;
        while i < self.entries.len()
            invariant
                i <= self.entries@.len(),
                ev == self.entries_view(),
                key@ == extension@,
                lookup(pairs_view(kept@), key@) is None,
                forall|k: Seq<char>|
                    k != key@ ==> #[trigger] lookup(pairs_view(kept@), k) == lookup(ev.take(i as int), k),
            decreases self.entries@.len() - i,
        {
            let ghost before = pairs_view(kept@);
            assert(ev.take(i + 1).drop_last() =~= ev.take(i as int));
            assert(ev.take(i + 1).last() == (self.entries@[i as int].0@, self.entries@[i as int].1@));
            if self.entries[i].0 != key {
                let name = self.entries[i].0.clone();
                let value = self.entries[i].1.clone();
                kept.push((name, value));
                assert(pairs_view(kept@).drop_last() =~= before);
                assert(pairs_view(kept@).last() == ev.take(i + 1).last());
            }
            assert forall|k: Seq<char>| k != key@ implies #[trigger] lookup(pairs_view(kept@), k)
                == lookup(ev.take(i + 1), k) by {
                assert(lookup(before, k) == lookup(ev.take(i as int), k));
            }
            i = i + 1;
        }
        assert(ev.take(i as int) =~= ev);
        self.entries = kept;
        assert(final(self)@ =~= old(self)@.remove(extension@));
    }

    /// Sets the content type of `extension` to `content_type`, replacing any
    /// earlier entry for it.
    pub fn insert(&mut self, extension: &str, content_type: &str)
        ensures
            final(self)@ == old(self)@.insert(extension@, content_type@),
    {
        self.remove(extension);
        let ghost before = self.entries_view();
        self.entries.push((extension.to_owned(), content_type.to_owned()));
        assert(self.entries_view().drop_last() =~= before);
        assert(self.entries_view().last() == (extension@, content_type@));
        let ghost mid = map_of(before);
        assert(mid == old(self)@.remove(extension@));
        assert forall|k: Seq<char>| #[trigger] self@.contains_key(k) == (k == extension@
            || mid.contains_key(k)) && (self@.contains_key(k) ==> self@[k] == (if k
            == extension@ {
            content_type@
        } else {
            mid[k]
        })) by {
            assert(lookup(self.entries_view(), k) == (if k == extension@ {
                Some(content_type@)
            } else {
                lookup(before, k)
            }));
        }
        assert(self@ =~= old(self)@.insert(extension@, content_type@));
    }
}

} // verus!
