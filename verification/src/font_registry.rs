//! A registry of fonts by name. Registering a font under a name that is
//! already taken replaces the font registered there.
//!
//! `F` is the caller's font handle; a caller that shares the registry
//! between threads puts it behind its own lock.
use vstd::prelude::*;

verus! {

/// The names of the entries are pairwise distinct.
pub open spec fn names_unique<F>(v: Seq<(String, F)>) -> bool {
    forall|i: int, j: int| 0 <= i < j < v.len() ==> v[i].0@ != v[j].0@
}

/// The fonts of a list of (name, font) entries, by name.
pub open spec fn font_map<F>(v: Seq<(String, F)>) -> Map<Seq<char>, F>
    decreases v.len(),
{
    if v.len() == 0 {
        Map::empty()
    } else {
        font_map(v.drop_last()).insert(v.last().0@, v.last().1)
    }
}

proof fn lemma_font_map_domain<F>(v: Seq<(String, F)>, name: Seq<char>)
    ensures
        font_map(v).dom().contains(name) <==> exists|k: int| 0 <= k < v.len() && v[k].0@ == name,
    decreases v.len(),
{
    if v.len() > 0 {
        lemma_font_map_domain(v.drop_last(), name);
        if font_map(v).dom().contains(name) && v.last().0@ != name {
            let k = choose|k: int| 0 <= k < v.drop_last().len() && v.drop_last()[k].0@ == name;
            assert(v[k].0@ == name);
        }
        if exists|k: int| 0 <= k < v.len() && v[k].0@ == name {
            let k = choose|k: int| 0 <= k < v.len() && v[k].0@ == name;
            if k < v.len() - 1 {
                assert(v.drop_last()[k].0@ == name);
            }
        }
    }
}

proof fn lemma_font_map_lookup<F>(v: Seq<(String, F)>, k: int)
    requires
        names_unique(v),
        0 <= k < v.len(),
    ensures
        font_map(v).dom().contains(v[k].0@),
        font_map(v)[v[k].0@] == v[k].1,
    decreases v.len(),
{
    if k < v.len() - 1 {
        lemma_font_map_lookup(v.drop_last(), k);
        assert(v.drop_last()[k] == v[k]);
    }
}

proof fn lemma_font_map_update<F>(v: Seq<(String, F)>, k: int, font: F)
    requires
        names_unique(v),
        0 <= k < v.len(),
    ensures
        font_map(v.update(k, (v[k].0, font))) == font_map(v).insert(v[k].0@, font),
        names_unique(v.update(k, (v[k].0, font))),
    decreases v.len(),
{
    let key = v[k].0@;
    let w = v.update(k, (v[k].0, font));
    if k == v.len() - 1 {
        assert(w.drop_last() == v.drop_last());
        assert(font_map(w) =~= font_map(v).insert(key, font));
    } else {
        assert(w.drop_last() == v.drop_last().update(k, (v[k].0, font)));
        lemma_font_map_update(v.drop_last(), k, font);
        assert(v.last().0@ != key);
        assert(font_map(w) =~= font_map(v).insert(key, font));
    }
}

proof fn lemma_font_map_remove<F>(v: Seq<(String, F)>, k: int)
    requires
        names_unique(v),
        0 <= k < v.len(),
    ensures
        font_map(v.remove(k)) == font_map(v).remove(v[k].0@),
        names_unique(v.remove(k)),
    decreases v.len(),
{
    let key = v[k].0@;
    let w = v.remove(k);
    if k == v.len() - 1 {
        assert(w == v.drop_last());
        lemma_font_map_domain(v.drop_last(), key);
        assert(font_map(w) =~= font_map(v).remove(key));
    } else {
        assert(w.drop_last() == v.drop_last().remove(k));
        assert(w.last() == v.last());
        lemma_font_map_remove(v.drop_last(), k);
        assert(v.last().0@ != key);
        assert(font_map(w) =~= font_map(v).remove(key));
    }
}

proof fn lemma_font_map_len<F>(v: Seq<(String, F)>)
    requires
        names_unique(v),
    ensures
        font_map(v).dom().finite(),
        font_map(v).len() == v.len(),
    decreases v.len(),
{
    if v.len() > 0 {
        lemma_font_map_len(v.drop_last());
        lemma_font_map_domain(v.drop_last(), v.last().0@);
        if font_map(v.drop_last()).dom().contains(v.last().0@) {
            let k = choose|k: int| 0 <= k < v.drop_last().len() && v.drop_last()[k].0@ == v.last().0@;
            assert(v[k].0@ == v[v.len() - 1].0@);
        }
    }
}


/// Strict lexicographic order of names by code point (the order of `String`).
pub open spec fn name_less(a: Seq<char>, b: Seq<char>) -> bool
    decreases a.len(),
{
    if b.len() == 0 {
        false
    } else if a.len() == 0 {
        true
    } else if (a[0] as u32) < (b[0] as u32) {
        true
    } else if a[0] == b[0] {
        name_less(a.drop_first(), b.drop_first())
    } else {
        false
    }
}

/// Whether one of the names is `x`.
pub open spec fn has_name(v: Seq<String>, x: Seq<char>) -> bool {
    exists|k: int| 0 <= k < v.len() && v[k]@ == x
}

/// Whether one of the first `n` entries is named `x`.
pub open spec fn has_entry_named<F>(v: Seq<(String, F)>, n: int, x: Seq<char>) -> bool {
    exists|k: int| 0 <= k < n && v[k].0@ == x
}

/// Names in strictly ascending order.
pub open spec fn names_ascending(v: Seq<String>) -> bool {
    forall|i: int, j: int| 0 <= i < j < v.len() ==> name_less(v[i]@, v[j]@)
}

proof fn lemma_char_order(a: char, b: char)
    ensures
        a != b ==> (a as u32) != (b as u32),
{
    vstd::utf8::char_u32_cast(a, a as u32);
    vstd::utf8::char_u32_cast(b, b as u32);
}

proof fn lemma_name_less_irreflexive(a: Seq<char>)
    ensures
        !name_less(a, a),
    decreases a.len(),
{
    if a.len() > 0 {
        lemma_name_less_irreflexive(a.drop_first());
    }
}

proof fn lemma_name_less_asymmetric(a: Seq<char>, b: Seq<char>)
    requires
        name_less(a, b),
    ensures
        !name_less(b, a),
    decreases a.len(),
{
    if a.len() > 0 && b.len() > 0 && a[0] == b[0] {
        lemma_name_less_asymmetric(a.drop_first(), b.drop_first());
    }
}

proof fn lemma_name_less_total(a: Seq<char>, b: Seq<char>)
    requires
        a != b,
    ensures
        name_less(a, b) || name_less(b, a),
    decreases a.len(),
{
    if a.len() > 0 && b.len() > 0 {
        lemma_char_order(a[0], b[0]);
        if a[0] == b[0] {
            if a.drop_first() == b.drop_first() {
                assert(a.drop_first().len() == a.len() - 1);
                assert(b.drop_first().len() == b.len() - 1);
                assert(a.len() == b.len());
                assert(a =~= b) by {
                    assert forall|i: int| 0 <= i < a.len() implies a[i] == b[i] by {
                        if i > 0 {
                            assert(a[i] == a.drop_first()[i - 1]);
                            assert(b[i] == b.drop_first()[i - 1]);
                        }
                    }
                }
            }
            lemma_name_less_total(a.drop_first(), b.drop_first());
        }
    } else if a.len() == 0 && b.len() == 0 {
        assert(a =~= b);
    }
}

proof fn lemma_name_less_transitive(a: Seq<char>, b: Seq<char>, c: Seq<char>)
    requires
        name_less(a, b),
        name_less(b, c),
    ensures
        name_less(a, c),
    decreases a.len(),
{
    if a.len() > 0 && b.len() > 0 && c.len() > 0 && a[0] == b[0] && b[0] == c[0] {
        lemma_name_less_transitive(a.drop_first(), b.drop_first(), c.drop_first());
    }
}

/// Whether `a` comes before `b` in the order of names.
fn names_less(a: &String, b: &String) -> (r: bool)
    ensures
        r == name_less(a@, b@),
{
    let x = crate::text::chars_of(a.as_str());
    let y = crate::text::chars_of(b.as_str());
    let mut i: usize = 0;
    assert(x@.skip(0) == x@ && y@.skip(0) == y@);
    while i < x.len() && i < y.len() && x[i] == y[i]
        invariant
            i <= x@.len(),
            i <= y@.len(),
            x@ == a@,
            y@ == b@,
            name_less(a@, b@) == name_less(x@.skip(i as int), y@.skip(i as int)),
        decreases x@.len() - i,
    {
        proof {
            assert(x@.skip(i as int).drop_first() == x@.skip(i + 1));
            assert(y@.skip(i as int).drop_first() == y@.skip(i + 1));
        }
        i = i + 1;
    }
    proof {
        if i < x@.len() && i < y@.len() {
            assert(x@.skip(i as int)[0] == x@[i as int]);
            assert(y@.skip(i as int)[0] == y@[i as int]);
        }
    }
    if i == y.len() {
        false
    } else if i == x.len() {
        true
    } else {
        (x[i] as u32) < (y[i] as u32)
    }
}

/// Inserts a name that `v` lacks at its place in ascending order.
fn insert_name(v: &mut Vec<String>, name: String)
    requires
        names_ascending(old(v)@),
        forall|k: int| 0 <= k < old(v)@.len() ==> old(v)@[k]@ != name@,
    ensures
        names_ascending(final(v)@),
        final(v)@.len() == old(v)@.len() + 1,
        forall|x: Seq<char>| #[trigger] has_name(final(v)@, x) <==> (has_name(old(v)@, x) || x == name@),
{
    let mut pos: usize = 0;
    while pos < v.len() && names_less(&v[pos], &name)
        invariant
            pos <= v@.len(),
            forall|k: int| 0 <= k < pos ==> name_less(#[trigger] v@[k]@, name@),
        decreases v@.len() - pos,
    {
        pos = pos + 1;
    }
    let ghost before = v@;
    proof {
        if pos < before.len() {
            assert(before[pos as int]@ != name@);
            lemma_name_less_total(before[pos as int]@, name@);
        }
    }
    let ghost nv = name@;
    v.insert(pos, name);
    proof {
        let w = v@;
        assert(w == before.insert(pos as int, w[pos as int]));
        assert(w[pos as int]@ == nv);
        assert forall|i: int, j: int| 0 <= i < j < w.len() implies name_less(w[i]@, w[j]@) by {
            if j < pos {
                assert(w[i] == before[i] && w[j] == before[j]);
            } else if j == pos {
                assert(w[i] == before[i]);
            } else if i == pos {
                assert(w[j] == before[j - 1]);
                if j - 1 > pos {
                    lemma_name_less_transitive(nv, before[pos as int]@, before[j - 1]@);
                }
            } else if i < pos {
                assert(w[i] == before[i] && w[j] == before[j - 1]);
            } else {
                assert(w[i] == before[i - 1] && w[j] == before[j - 1]);
            }
        }
        assert forall|x: Seq<char>| #[trigger] has_name(w, x) <==> (has_name(before, x) || x == nv) by {
            if exists|k: int| 0 <= k < w.len() && w[k]@ == x {
                let k = choose|k: int| 0 <= k < w.len() && w[k]@ == x;
                if k < pos {
                    assert(before[k]@ == x);
                } else if k > pos {
                    assert(before[k - 1]@ == x);
                }
            }
            if exists|k: int| 0 <= k < before.len() && before[k]@ == x {
                let k = choose|k: int| 0 <= k < before.len() && before[k]@ == x;
                if k < pos {
                    assert(w[k]@ == x);
                } else {
                    assert(w[k + 1]@ == x);
                }
            }
            if x == nv {
                assert(w[pos as int]@ == x);
            }
        }
    }
}

/// Fonts registered by name.
pub struct FontRegistry<F> {
    fonts: Vec<(String, F)>,
}

impl<F> FontRegistry<F> {
    #[verifier::type_invariant]
    spec fn wf(self) -> bool {
        names_unique(self.fonts@)
    }

    /// The registered fonts by name.
    pub closed spec fn spec_fonts(self) -> Map<Seq<char>, F> {
        font_map(self.fonts@)
    }

    /// An empty registry.
    pub fn new() -> (r: Self)
        ensures
            r.spec_fonts() == Map::<Seq<char>, F>::empty(),
    {
        FontRegistry { fonts: Vec::new() }
    }

    /// The position of the entry named `key`, if there is one.
    fn position(&self, key: &String) -> (r: Option<usize>)
        ensures
            match r {
                Some(k) => k < self.fonts@.len() && self.fonts@[k as int].0@ == key@,
                None => forall|k: int| 0 <= k < self.fonts@.len() ==> self.fonts@[k].0@ != key@,
            },
    {
        let mut i: usize = 0;
        while i < self.fonts.len()
            invariant
                i <= self.fonts@.len(),
                forall|k: int| 0 <= k < i ==> self.fonts@[k].0@ != key@,
            decreases self.fonts@.len() - i,
        {
            if self.fonts[i].0 == *key {
                return Some(i);
            }
            i = i + 1;
        }
        None
    }

    /// The font registered under `name`, if any.
    pub fn get(&self, name: &str) -> (r: Option<&F>)
        ensures
            match r {
                Some(f) => self.spec_fonts().dom().contains(name@) && *f == self.spec_fonts()[name@],
                None => !self.spec_fonts().dom().contains(name@),
            },
    {
        proof {
            use_type_invariant(self);
        }
        let key = name.to_owned();
        proof {
            lemma_font_map_domain(self.fonts@, name@);
        }
        match self.position(&key) {
            Some(k) => {
                proof {
                    lemma_font_map_lookup(self.fonts@, k as int);
                }
                Some(&self.fonts[k].1)
            },
            None => None,
        }
    }

    /// Whether a font is registered under `name`.
    pub fn has(&self, name: &str) -> (b: bool)
        ensures
            b == self.spec_fonts().dom().contains(name@),
    {
        let key = name.to_owned();
        proof {
            lemma_font_map_domain(self.fonts@, name@);
        }
        self.position(&key).is_some()
    }

    /// Registers `font` under `name`, replacing any font registered there.
    pub fn register(&mut self, name: &str, font: F)
        ensures
            final(self).spec_fonts() == old(self).spec_fonts().insert(name@, font),
    {
        proof {
            use_type_invariant(&*self);
        }
        let key = name.to_owned();
        match self.position(&key) {
            Some(k) => {
                let mut fonts = Vec::new();
                std::mem::swap(&mut fonts, &mut self.fonts);
                proof {
                    lemma_font_map_update(fonts@, k as int, font);
                }
                let ghost before = fonts@;
                let (old_name, _) = fonts.remove(k);
                fonts.insert(k, (old_name, font));
                assert(fonts@ == before.update(k as int, (before[k as int].0, font)));
                self.fonts = fonts;
            },
            None => {
                let mut fonts = Vec::new();
                std::mem::swap(&mut fonts, &mut self.fonts);
                let ghost before = fonts@;
                fonts.push((key, font));
                proof {
                    assert(fonts@.drop_last() == before);
                    assert(names_unique(fonts@));
                }
                self.fonts = fonts;
            },
        }
    }

    /// The names of the registered fonts, in ascending order: one per
    /// registered font.
    pub fn list(&self) -> (v: Vec<String>)
        ensures
            names_ascending(v@),
            v@.len() == self.spec_fonts().len(),
            forall|x: Seq<char>| #[trigger] has_name(v@, x) <==> self.spec_fonts().dom().contains(x),
    {
        proof {
            use_type_invariant(self);
        }
        let mut v: Vec<String> = Vec::new();
        let mut i: usize = 0;
        while i < self.fonts.len()
            invariant
                i <= self.fonts@.len(),
                names_unique(self.fonts@),
                names_ascending(v@),
                v@.len() == i,
                forall|x: Seq<char>| #[trigger] has_name(v@, x) <==> has_entry_named(self.fonts@, i as int, x),
            decreases self.fonts@.len() - i,
        {
            let name = self.fonts[i].0.clone();
            proof {
                assert forall|k: int| 0 <= k < v@.len() implies v@[k]@ != name@ by {
                    if v@[k]@ == name@ {
                        let x = v@[k]@;
                        assert(has_name(v@, x));
                        let j = choose|j: int| 0 <= j < i && self.fonts@[j].0@ == x;
                        assert(self.fonts@[j].0@ != self.fonts@[i as int].0@);
                    }
                }
            }
            let ghost prev = v@;
            insert_name(&mut v, name);
            proof {
                assert forall|x: Seq<char>| #[trigger] has_name(v@, x)
                    <==> has_entry_named(self.fonts@, i + 1, x) by {
                    if has_entry_named(self.fonts@, i + 1, x) {
                        let k = choose|k: int| 0 <= k < i + 1 && self.fonts@[k].0@ == x;
                        if k < i {
                            assert(has_entry_named(self.fonts@, i as int, x));
                        }
                    }
                    if has_name(prev, x) {
                        let j = choose|j: int| 0 <= j < i && self.fonts@[j].0@ == x;
                        assert(0 <= j < i + 1 && self.fonts@[j].0@ == x);
                    }
                    if x == self.fonts@[i as int].0@ {
                        assert(0 <= i < i + 1 && self.fonts@[i as int].0@ == x);
                    }
                }
            }
            i = i + 1;
        }
        proof {
            assert forall|x: Seq<char>| #[trigger] has_name(v@, x) <==> self.spec_fonts().dom().contains(x) by {
                lemma_font_map_domain(self.fonts@, x);
                assert(self.fonts@.len() == i);
            }
            lemma_font_map_len(self.fonts@);
        }
        v
    }

    /// Removes the font registered under `name` and returns it, if any.
    pub fn remove(&mut self, name: &str) -> (r: Option<F>)
        ensures
            final(self).spec_fonts() == old(self).spec_fonts().remove(name@),
            match r {
                Some(f) => old(self).spec_fonts().dom().contains(name@) && f == old(self).spec_fonts()[name@],
                None => !old(self).spec_fonts().dom().contains(name@),
            },
    {
        proof {
            use_type_invariant(&*self);
            lemma_font_map_domain(self.fonts@, name@);
        }
        let key = name.to_owned();
        match self.position(&key) {
            Some(k) => {
                let mut fonts = Vec::new();
                std::mem::swap(&mut fonts, &mut self.fonts);
                proof {
                    lemma_font_map_lookup(fonts@, k as int);
                    lemma_font_map_remove(fonts@, k as int);
                }
                let (_, font) = fonts.remove(k);
                self.fonts = fonts;
                Some(font)
            },
            None => {
                proof {
                    assert(font_map(self.fonts@) =~= font_map(self.fonts@).remove(name@));
                }
                None
            },
        }
    }

    /// Removes every font.
    pub fn clear(&mut self)
        ensures
            final(self).spec_fonts() == Map::<Seq<char>, F>::empty(),
    {
        self.fonts = Vec::new();
    }

    /// The number of registered fonts.
    pub fn len(&self) -> (n: usize)
        ensures
            self.spec_fonts().dom().finite(),
            n == self.spec_fonts().len(),
    {
        proof {
            use_type_invariant(self);
            lemma_font_map_len(self.fonts@);
        }
        self.fonts.len()
    }

    /// Whether no font is registered.
    pub fn is_empty(&self) -> (b: bool)
        ensures
            b == (self.spec_fonts().dom() == Set::<Seq<char>>::empty()),
    {
        proof {
            use_type_invariant(self);
            lemma_font_map_len(self.fonts@);
            if self.fonts@.len() > 0 {
                lemma_font_map_domain(self.fonts@, self.fonts@[0].0@);
                assert(self.spec_fonts().dom().contains(self.fonts@[0].0@));
            } else {
                assert(self.spec_fonts().dom() =~= Set::<Seq<char>>::empty());
            }
        }
        self.fonts.len() == 0
    }
}


impl<F> Default for FontRegistry<F> {
    fn default() -> (r: Self)
        ensures
            r.spec_fonts() == Map::<Seq<char>, F>::empty(),
    {
        Self::new()
    }
}

/// A lookup after registering finds the font just registered under that
/// name, and finds under every other name what it found before.
pub proof fn lemma_register_then_get<F>(before: FontRegistry<F>, after: FontRegistry<F>, name: Seq<char>, font: F)
    requires
        after.spec_fonts() == before.spec_fonts().insert(name, font),
    ensures
        after.spec_fonts().dom().contains(name),
        after.spec_fonts()[name] == font,
        forall|other: Seq<char>| other != name ==> (#[trigger] after.spec_fonts().dom().contains(other)
            <==> before.spec_fonts().dom().contains(other)),
        forall|other: Seq<char>| other != name && before.spec_fonts().dom().contains(other)
            ==> #[trigger] after.spec_fonts()[other] == before.spec_fonts()[other],
{
}

/// After a removal nothing is registered under the removed name, and every
/// other name keeps its font.
pub proof fn lemma_remove_then_absent<F>(before: FontRegistry<F>, after: FontRegistry<F>, name: Seq<char>)
    requires
        after.spec_fonts() == before.spec_fonts().remove(name),
    ensures
        !after.spec_fonts().dom().contains(name),
        forall|other: Seq<char>| other != name ==> (#[trigger] after.spec_fonts().dom().contains(other)
            <==> before.spec_fonts().dom().contains(other)),
        forall|other: Seq<char>| other != name && before.spec_fonts().dom().contains(other)
            ==> #[trigger] after.spec_fonts()[other] == before.spec_fonts()[other],
{
}

} // verus!
