//! Metadata: an ordered key-to-value dictionary serialised as `key=value`
//! pairs joined by `;`, and the archive-wide indexed metadata table.
use vstd::prelude::*;
use vstd::string::StrSliceExecFns;
use vstd::string::StringExecFns;
use crate::chunks::DataChunk;
use crate::error::OgawaError;
use crate::reader::ByteReader;

verus! {

/// Lexicographic order on character sequences by code point, the order the
/// serialised form follows.
pub open spec fn spec_str_lt(a: Seq<char>, b: Seq<char>) -> bool
    decreases a.len(),
{
    if b.len() == 0 {
        false
    } else if a.len() == 0 {
        true
    } else if (a[0] as u32) < (b[0] as u32) {
        true
    } else if (a[0] as u32) > (b[0] as u32) {
        false
    } else {
        spec_str_lt(a.skip(1), b.skip(1))
    }
}

/// The order is irreflexive.
pub proof fn lemma_str_lt_irrefl(a: Seq<char>)
    ensures
        !spec_str_lt(a, a),
    decreases a.len(),
{
    if a.len() > 0 {
        lemma_str_lt_irrefl(a.skip(1));
    }
}

/// Two sequences neither of which precedes the other are equal.
pub proof fn lemma_str_lt_connex(a: Seq<char>, b: Seq<char>)
    requires
        !spec_str_lt(a, b),
        !spec_str_lt(b, a),
    ensures
        a == b,
    decreases a.len(),
{
    if a.len() == 0 || b.len() == 0 {
        assert(a =~= b);
    } else {
        assert((a[0] as u32) == (b[0] as u32));
        vstd::utf8::char_u32_cast(a[0], a[0] as u32);
        vstd::utf8::char_u32_cast(b[0], b[0] as u32);
        assert(a[0] == b[0]);
        lemma_str_lt_connex(a.skip(1), b.skip(1));
        assert(a.len() == b.len());
        assert(forall|i: int|
            1 <= i < a.len() ==> a[i] == a.skip(1)[i - 1] && b[i] == b.skip(1)[i - 1]);
        assert(a =~= b);
    }
}

/// The order is transitive.
pub proof fn lemma_str_lt_trans(a: Seq<char>, b: Seq<char>, c: Seq<char>)
    requires
        spec_str_lt(a, b),
        spec_str_lt(b, c),
    ensures
        spec_str_lt(a, c),
    decreases a.len() + b.len() + c.len(),
{
    if a.len() > 0 && b.len() > 0 && c.len() > 0 && (a[0] as u32) == (b[0] as u32) && (b[0] as u32)
        == (c[0] as u32) {
        lemma_str_lt_trans(a.skip(1), b.skip(1), c.skip(1));
    }
}

/// Compares two strings in the lexicographic order, from character `i` on.
fn str_lt_from(a: &str, b: &str, i: usize) -> (r: bool)
    requires
        i <= a@.len(),
        i <= b@.len(),
    ensures
        r == spec_str_lt(a@.skip(i as int), b@.skip(i as int)),
    decreases b@.len() - i,
{
    let la = a.unicode_len();
    let lb = b.unicode_len();
    if i == lb {
        false
    } else if i == la {
        true
    } else {
        let ca = a.get_char(i);
        let cb = b.get_char(i);
        let ua = ca as u32;
        let ub = cb as u32;
        proof {
            assert(a@.skip(i as int)[0] == a@[i as int]);
            assert(b@.skip(i as int)[0] == b@[i as int]);
        }
        if ua < ub {
            true
        } else if ua > ub {
            false
        } else {
            let r = str_lt_from(a, b, i + 1);
            proof {
                assert(a@.skip(i as int).skip(1) =~= a@.skip(i as int + 1));
                assert(b@.skip(i as int).skip(1) =~= b@.skip(i as int + 1));
            }
            r
        }
    }
}

/// Whether `a` precedes `b` in the lexicographic order.
pub fn str_lt(a: &str, b: &str) -> (r: bool)
    ensures
        r == spec_str_lt(a@, b@),
{
    let r = str_lt_from(a, b, 0);
    proof {
        assert(a@.skip(0) =~= a@);
        assert(b@.skip(0) =~= b@);
    }
    r
}

/// Whether `a` and `b` hold the same characters.
pub fn str_eq(a: &str, b: &str) -> (r: bool)
    ensures
        r == (a@ == b@),
{
    let la = a.unicode_len();
    let lb = b.unicode_len();
    if la != lb {
        return false;
    }
    let mut i: usize = 0;
    while i < la
        invariant
            i <= la,
            la == a@.len(),
            la == b@.len(),
            forall|j: int| 0 <= j < i ==> a@[j] == b@[j],
        decreases la - i,
    {
        let ca = a.get_char(i);
        let cb = b.get_char(i);
        if ca != cb {
            return false;
        }
        i = i + 1;
    }
    proof {
        assert(a@ =~= b@);
    }
    true
}

/// Index of the first occurrence of `c`, or -1 when it does not occur.
pub open spec fn spec_find(s: Seq<char>, c: char) -> int
    decreases s.len(),
{
    if s.len() == 0 {
        -1
    } else if s[0] == c {
        0
    } else {
        let r = spec_find(s.skip(1), c);
        if r < 0 {
            -1
        } else {
            r + 1
        }
    }
}

/// A position holding `c` with no occurrence before it is the first one.
pub proof fn lemma_find_at(s: Seq<char>, c: char, k: int)
    requires
        0 <= k < s.len(),
        s[k] == c,
        forall|m: int| 0 <= m < k ==> s[m] != c,
    ensures
        spec_find(s, c) == k,
    decreases s.len(),
{
    if k > 0 {
        assert(forall|m: int| 0 <= m < k - 1 ==> s.skip(1)[m] == s[m + 1]);
        lemma_find_at(s.skip(1), c, k - 1);
    }
}

/// Without any occurrence there is no first one.
pub proof fn lemma_find_none(s: Seq<char>, c: char)
    requires
        forall|m: int| 0 <= m < s.len() ==> s[m] != c,
    ensures
        spec_find(s, c) == -1,
    decreases s.len(),
{
    if s.len() > 0 {
        assert(forall|m: int| 0 <= m < s.skip(1).len() ==> s.skip(1)[m] == s[m + 1] && s.skip(
            1,
        )[m] != c);
        lemma_find_none(s.skip(1), c);
    }
}

/// Finds the first occurrence of `c` at or after character `from`.
fn find_char(s: &str, c: char, from: usize) -> (r: Option<usize>)
    requires
        from <= s@.len(),
    ensures
        match r {
            Some(k) => from <= k < s@.len() && s@[k as int] == c && forall|m: int|
                from <= m < k ==> s@[m] != c,
            None => forall|m: int| from <= m < s@.len() ==> s@[m] != c,
        },
{
    let n = s.unicode_len();
    let mut i: usize = from;
    while i < n
        invariant
            from <= i <= n,
            n == s@.len(),
            forall|m: int| from <= m < i ==> s@[m] != c,
        decreases n - i,
    {
        if s.get_char(i) == c {
            return Some(i);
        }
        i = i + 1;
    }
    None
}

/// The mapping a sequence of key-value pairs denotes; an earlier pair wins
/// over a later one with the same key (pairs are unique-keyed in practice).
pub open spec fn spec_pairs_map(ps: Seq<(Seq<char>, Seq<char>)>) -> Map<Seq<char>, Seq<char>>
    decreases ps.len(),
{
    if ps.len() == 0 {
        Map::empty()
    } else {
        spec_pairs_map(ps.skip(1)).insert(ps[0].0, ps[0].1)
    }
}

/// A key is in the mapping exactly when some pair holds it.
pub proof fn lemma_pairs_map_lookup(ps: Seq<(Seq<char>, Seq<char>)>, k: Seq<char>)
    ensures
        spec_pairs_map(ps).contains_key(k) <==> exists|i: int| 0 <= i < ps.len() && ps[i].0 == k,
    decreases ps.len(),
{
    if ps.len() > 0 {
        lemma_pairs_map_lookup(ps.skip(1), k);
        assert(forall|i: int| 0 <= i < ps.skip(1).len() ==> ps.skip(1)[i] == ps[i + 1]);
        if spec_pairs_map(ps).contains_key(k) {
            if ps[0].0 != k {
                assert(spec_pairs_map(ps.skip(1)).contains_key(k));
                let i = choose|i: int| 0 <= i < ps.skip(1).len() && ps.skip(1)[i].0 == k;
                assert(ps[i + 1].0 == k);
            }
        }
        if exists|i: int| 0 <= i < ps.len() && ps[i].0 == k {
            let i = choose|i: int| 0 <= i < ps.len() && ps[i].0 == k;
            if i > 0 {
                assert(ps.skip(1)[i - 1].0 == k);
            }
        }
    }
}

/// Under unique keys, a key maps to the value of the pair holding it.
pub proof fn lemma_pairs_map_value(ps: Seq<(Seq<char>, Seq<char>)>, i: int)
    requires
        0 <= i < ps.len(),
        forall|a: int, b: int| 0 <= a < b < ps.len() ==> ps[a].0 != ps[b].0,
    ensures
        spec_pairs_map(ps).contains_key(ps[i].0),
        spec_pairs_map(ps)[ps[i].0] == ps[i].1,
    decreases ps.len(),
{
    let k = ps[i].0;
    assert(forall|a: int| 0 <= a < ps.skip(1).len() ==> ps.skip(1)[a] == ps[a + 1]);
    if i == 0 {
        if spec_pairs_map(ps.skip(1)).contains_key(k) {
            lemma_pairs_map_lookup(ps.skip(1), k);
            let j = choose|j: int| 0 <= j < ps.skip(1).len() && ps.skip(1)[j].0 == k;
            assert(ps[j + 1].0 == k && ps[0].0 == k);
            assert(false);
        }
        assert(spec_pairs_map(ps)[k] == ps[0].1);
    } else {
        assert(ps.skip(1)[i - 1].0 == k);
        lemma_pairs_map_value(ps.skip(1), i - 1);
        assert(ps[0].0 != k);
    }
}

/// The shape of a well-formed pair sequence: keys strictly ascending, keys
/// free of `;` and `=`, values free of `;`.
pub open spec fn spec_pairs_wf(ps: Seq<(Seq<char>, Seq<char>)>) -> bool {
    &&& forall|i: int, j: int| 0 <= i < j < ps.len() ==> spec_str_lt(ps[i].0, ps[j].0)
    &&& forall|i: int, m: int|
        0 <= i < ps.len() && 0 <= m < ps[i].0.len() ==> ps[i].0[m] != ';' && ps[i].0[m] != '='
    &&& forall|i: int, m: int| 0 <= i < ps.len() && 0 <= m < ps[i].1.len() ==> ps[i].1[m] != ';'
}

/// A metadata dictionary: key-value pairs held in ascending key order.
#[derive(Debug, Clone)]
pub struct MetaData {
    pub tokens: Vec<(String, String)>,
}

impl View for MetaData {
    type V = Seq<(Seq<char>, Seq<char>)>;

    open spec fn view(&self) -> Seq<(Seq<char>, Seq<char>)> {
        Seq::new(self.tokens@.len(), |i: int| (self.tokens@[i].0@, self.tokens@[i].1@))
    }
}

impl MetaData {
    /// The mapping this dictionary denotes.
    pub open spec fn spec_map(self) -> Map<Seq<char>, Seq<char>> {
        spec_pairs_map(self@)
    }

    /// Keys strictly ascending (hence unique), keys free of the separators
    /// `;` and `=`, and values free of `;`: the shape every decoded
    /// dictionary has and serialisation depends on.
    pub open spec fn wf(self) -> bool {
        spec_pairs_wf(self@)
    }

    /// The empty dictionary.
    pub fn new() -> (r: MetaData)
        ensures
            r@ =~= Seq::<(Seq<char>, Seq<char>)>::empty(),
            r.wf(),
            r.spec_map() =~= Map::<Seq<char>, Seq<char>>::empty(),
    {
        MetaData { tokens: Vec::new() }
    }

    /// Copies the dictionary, pair by pair.
    pub fn duplicate(&self) -> (r: MetaData)
        ensures
            r@ == self@,
    {
        let mut tokens: Vec<(String, String)> = Vec::new();
        let n = self.tokens.len();
        let mut i: usize = 0;
        while i < n
            invariant
                i <= n,
                n == self.tokens@.len(),
                tokens@.len() == i,
                forall|j: int|
                    0 <= j < i ==> (#[trigger] tokens@[j]).0@ == self.tokens@[j].0@
                        && tokens@[j].1@ == self.tokens@[j].1@,
            decreases n - i,
        {
            tokens.push((self.tokens[i].0.clone(), self.tokens[i].1.clone()));
            i = i + 1;
        }
        let r = MetaData { tokens };
        proof {
            assert(r@ =~= self@);
        }
        r
    }

    /// The number of entries.
    pub fn len(&self) -> (r: usize)
        ensures
            r == self@.len(),
    {
        self.tokens.len()
    }

    /// Looks a key up, yielding a copy of its value.
    pub fn get(&self, key: &str) -> (r: Option<String>)
        requires
            self.wf(),
        ensures
            match r {
                Some(v) => self.spec_map().contains_key(key@) && v@ == self.spec_map()[key@],
                None => !self.spec_map().contains_key(key@),
            },
    {
        proof {
            lemma_pairs_map_lookup(self@, key@);
            assert(forall|i: int, j: int| 0 <= i < j < self@.len() ==> self@[i].0 != self@[j].0)
                by {
                assert forall|i: int, j: int| 0 <= i < j < self@.len() implies self@[i].0
                    != self@[j].0 by {
                    lemma_str_lt_irrefl(self@[i].0);
                }
            }
        }
        let n = self.tokens.len();
        let mut i: usize = 0;
        while i < n
            invariant
                i <= n,
                n == self@.len(),
                self.wf(),
                forall|j: int| 0 <= j < i ==> self@[j].0 != key@,
            decreases n - i,
        {
            if str_eq(self.tokens[i].0.as_str(), key) {
                proof {
                    assert(self@[i as int].0 == key@);
                    assert forall|a: int, b: int| 0 <= a < b < self@.len() implies self@[a].0
                        != self@[b].0 by {
                        lemma_str_lt_irrefl(self@[a].0);
                    }
                    lemma_pairs_map_value(self@, i as int);
                }
                return Some(self.tokens[i].1.clone());
            }
            i = i + 1;
        }
        None
    }

    /// Binds `key` to `value`, replacing any existing binding and keeping
    /// the pairs in ascending key order.
    pub fn set(&mut self, key: String, value: String)
        requires
            old(self).wf(),
            forall|m: int| 0 <= m < key@.len() ==> key@[m] != ';' && key@[m] != '=',
            forall|m: int| 0 <= m < value@.len() ==> value@[m] != ';',
        ensures
            final(self).wf(),
            final(self).spec_map() =~= old(self).spec_map().insert(key@, value@),
    {
        let ghost old_view = self@;
        proof {
            assert forall|a: int, b: int| 0 <= a < b < old_view.len() implies old_view[a].0
                != old_view[b].0 by {
                lemma_str_lt_irrefl(old_view[a].0);
            }
        }
        let n = self.tokens.len();
        let mut i: usize = 0;
        let mut found_ge = false;
        while i < n && !found_ge
            invariant
                i <= n,
                n == self@.len(),
                self@ == old_view,
                forall|j: int| 0 <= j < i ==> spec_str_lt(self@[j].0, key@),
                found_ge ==> i < n && !spec_str_lt(self@[i as int].0, key@),
            decreases n - i + (if found_ge { 0int } else { 1int }),
        {
            if str_lt(self.tokens[i].0.as_str(), key.as_str()) {
                i = i + 1;
            } else {
                found_ge = true;
            }
        }
        if found_ge && !str_lt(key.as_str(), self.tokens[i].0.as_str()) {
            proof {
                lemma_str_lt_connex(self@[i as int].0, key@);
            }
            self.tokens.remove(i);
            self.tokens.insert(i, (key, value));
            proof {
                assert(self@ =~= old_view.update(i as int, (key@, value@)));
                lemma_pairs_map_update(old_view, i as int, key@, value@);
            }
        } else {
            proof {
                if i < n {
                    assert(spec_str_lt(key@, self@[i as int].0));
                }
                assert forall|j: int| i <= j < old_view.len() implies spec_str_lt(
                    key@,
                    old_view[j].0,
                ) by {
                    if j > i {
                        lemma_str_lt_trans(key@, old_view[i as int].0, old_view[j].0);
                    }
                }
                assert forall|j: int| 0 <= j < old_view.len() implies old_view[j].0 != key@ by {
                    lemma_str_lt_irrefl(key@);
                    if j < i {
                        lemma_str_lt_irrefl(old_view[j].0);
                        if old_view[j].0 == key@ {
                            assert(spec_str_lt(old_view[j].0, key@));
                            assert(false);
                        }
                    } else {
                        if old_view[j].0 == key@ {
                            assert(spec_str_lt(key@, old_view[j].0));
                            assert(false);
                        }
                    }
                }
            }
            self.tokens.insert(i, (key, value));
            proof {
                assert(self@ =~= old_view.insert(i as int, (key@, value@)));
                lemma_pairs_map_insert(old_view, i as int, key@, value@);
            }
        }
    }
}

/// Updating the pair at a position whose key it keeps updates the mapping at
/// that key, provided keys are unique.
proof fn lemma_pairs_map_update(ps: Seq<(Seq<char>, Seq<char>)>, i: int, k: Seq<char>, v: Seq<char>)
    requires
        0 <= i < ps.len(),
        ps[i].0 == k,
        forall|a: int, b: int| 0 <= a < b < ps.len() ==> ps[a].0 != ps[b].0,
    ensures
        spec_pairs_map(ps.update(i, (k, v))) =~= spec_pairs_map(ps).insert(k, v),
    decreases ps.len(),
{
    let qs = ps.update(i, (k, v));
    if i == 0 {
        assert(qs.skip(1) =~= ps.skip(1));
        assert(spec_pairs_map(qs) =~= spec_pairs_map(ps.skip(1)).insert(k, v));
        lemma_pairs_map_lookup(ps.skip(1), k);
        assert(forall|a: int| 0 <= a < ps.skip(1).len() ==> ps.skip(1)[a] == ps[a + 1]);
        assert(!spec_pairs_map(ps.skip(1)).contains_key(k));
        assert(spec_pairs_map(ps) =~= spec_pairs_map(ps.skip(1)).insert(k, ps[0].1));
        assert(spec_pairs_map(ps).insert(k, v) =~= spec_pairs_map(ps.skip(1)).insert(k, v));
    } else {
        assert(forall|a: int| 0 <= a < ps.skip(1).len() ==> ps.skip(1)[a] == ps[a + 1]);
        assert(qs.skip(1) =~= ps.skip(1).update(i - 1, (k, v)));
        assert(qs[0] == ps[0]);
        lemma_pairs_map_update(ps.skip(1), i - 1, k, v);
        assert(ps[0].0 != k);
        assert(spec_pairs_map(qs) =~= spec_pairs_map(ps.skip(1)).insert(k, v).insert(
            ps[0].0,
            ps[0].1,
        ));
        assert(spec_pairs_map(ps.skip(1)).insert(k, v).insert(ps[0].0, ps[0].1)
            =~= spec_pairs_map(ps.skip(1)).insert(ps[0].0, ps[0].1).insert(k, v));
    }
}

/// The binding a single `key=value` token denotes: the text before the first
/// `=` maps to the text after it; a token without `=` binds nothing.
pub open spec fn spec_token_map(token: Seq<char>) -> Map<Seq<char>, Seq<char>> {
    let e = spec_find(token, '=');
    if 0 <= e < token.len() {
        Map::empty().insert(token.take(e), token.skip(e + 1))
    } else {
        Map::empty()
    }
}

/// The mapping a serialised metadata text denotes: tokens split on `;`, each
/// split on its first `=`; a later binding of a key wins.
pub open spec fn spec_meta_map(text: Seq<char>) -> Map<Seq<char>, Seq<char>>
    decreases text.len(),
{
    let k = spec_find(text, ';');
    if 0 <= k < text.len() {
        spec_token_map(text.take(k)).union_prefer_right(spec_meta_map(text.skip(k + 1)))
    } else {
        spec_token_map(text)
    }
}

impl MetaData {
    /// Decodes a serialised metadata text into a dictionary.
    pub fn deserialize(text: &str) -> (r: MetaData)
        ensures
            r.wf(),
            r.spec_map() == spec_meta_map(text@),
    {
        let mut md = MetaData::new();
        let n = text.unicode_len();
        let mut pos: usize = 0;
        proof {
            assert(text@.skip(0) =~= text@);
            assert(md.spec_map().union_prefer_right(spec_meta_map(text@)) =~= spec_meta_map(
                text@,
            ));
        }
        loop
            invariant
                pos <= n,
                n == text@.len(),
                md.wf(),
                spec_meta_map(text@) =~= md.spec_map().union_prefer_right(
                    spec_meta_map(text@.skip(pos as int)),
                ),
            decreases n - pos + 1,
        {
            let ghost old_md_map = md.spec_map();
            let (token_end, has_more) = match find_char(text, ';', pos) {
                Some(k) => (k, true),
                None => (n, false),
            };
            let ghost tail = text@.skip(pos as int);
            let ghost token = text@.subrange(pos as int, token_end as int);
            proof {
                assert(forall|m: int| 0 <= m < tail.len() ==> tail[m] == text@[m + pos]);
                if has_more {
                    lemma_find_at(tail, ';', token_end - pos);
                    assert(tail.take(token_end - pos) =~= token);
                    assert(tail.skip(token_end - pos + 1) =~= text@.skip(token_end + 1));
                    assert(spec_meta_map(tail) == spec_token_map(token).union_prefer_right(
                        spec_meta_map(text@.skip(token_end + 1)),
                    ));
                } else {
                    lemma_find_none(tail, ';');
                    assert(tail =~= token);
                    assert(spec_meta_map(tail) == spec_token_map(token));
                }
            }
            let eq_opt = find_char(text, '=', pos);
            let has_eq = match eq_opt {
                Some(e) => e < token_end,
                None => false,
            };
            if has_eq {
                let e = match eq_opt {
                    Some(e) => e,
                    None => 0,
                };
                let key = text.substring_char(pos, e).to_owned();
                let value = text.substring_char(e + 1, token_end).to_owned();
                proof {
                    assert(forall|m: int| 0 <= m < token.len() ==> token[m] == text@[m + pos]);
                    assert(token[e - pos] == '=');
                    lemma_find_at(token, '=', e - pos);
                    assert(token.take(e - pos) =~= key@);
                    assert(token.skip(e - pos + 1) =~= value@);
                    assert(spec_token_map(token) =~= Map::<Seq<char>, Seq<char>>::empty().insert(
                        key@,
                        value@,
                    ));
                }
                md.set(key, value);
                proof {
                    assert(md.spec_map() =~= old_md_map.insert(key@, value@));
                    assert(old_md_map.union_prefer_right(
                        Map::<Seq<char>, Seq<char>>::empty().insert(key@, value@),
                    ) =~= old_md_map.insert(key@, value@));
                }
            } else {
                proof {
                    assert(forall|m: int| 0 <= m < token.len() ==> token[m] == text@[m + pos]);
                    assert forall|m: int| 0 <= m < token.len() implies token[m] != '=' by {
                        match eq_opt {
                            Some(e) => {
                                assert(token[m] == text@[m + pos]);
                            },
                            None => {},
                        }
                    }
                    lemma_find_none(token, '=');
                    assert(spec_token_map(token) =~= Map::<Seq<char>, Seq<char>>::empty());
                    assert(old_md_map.union_prefer_right(
                        Map::<Seq<char>, Seq<char>>::empty(),
                    ) =~= old_md_map);
                }
            }
            proof {
                if has_more {
                    assert(md.spec_map().union_prefer_right(
                        spec_meta_map(text@.skip(token_end + 1)),
                    ) =~= old_md_map.union_prefer_right(spec_meta_map(tail)));
                } else {
                    assert(md.spec_map() =~= old_md_map.union_prefer_right(spec_meta_map(tail)));
                }
            }
            if has_more {
                pos = token_end + 1;
            } else {
                proof {
                    assert(spec_meta_map(text@) =~= md.spec_map());
                }
                return md;
            }
        }
    }

    /// Serialises the dictionary as `key=value` pairs joined by `;` in key
    /// order, with no trailing separator.
    pub fn serialize(&self) -> (r: String)
        ensures
            r@ == spec_serialize(self@),
    {
        let mut out = String::new();
        let n = self.tokens.len();
        proof {
            reveal_strlit(";");
            reveal_strlit("=");
            assert(";"@ =~= seq![';']);
            assert("="@ =~= seq!['=']);
        }
        let mut i: usize = 0;
        while i < n
            invariant
                i <= n,
                n == self@.len(),
                ";"@ == seq![';'],
                "="@ == seq!['='],
                out@ + spec_ser_tail(self@, i as int) == spec_serialize(self@),
            decreases n - i,
        {
            let ghost before = out@;
            if i > 0 {
                out.append(";");
            }
            out.append(self.tokens[i].0.as_str());
            out.append("=");
            out.append(self.tokens[i].1.as_str());
            proof {
                let ps = self@;
                let ii = i as int;
                let entry = ps[ii].0 + seq!['='] + ps[ii].1;
                let sep: Seq<char> = if ii > 0 {
                    seq![';']
                } else {
                    Seq::empty()
                };
                assert(out@ =~= before + sep + entry);
                if ii + 1 < ps.len() {
                    assert(spec_ser_tail(ps, ii) =~= sep + entry + spec_ser_tail(ps, ii + 1));
                    assert((before + sep + entry) + spec_ser_tail(ps, ii + 1) =~= before + (sep
                        + entry + spec_ser_tail(ps, ii + 1)));
                } else {
                    assert(spec_ser_tail(ps, ii) =~= sep + entry);
                    assert(spec_ser_tail(ps, ii + 1) =~= Seq::<char>::empty());
                    assert((before + sep + entry) + spec_ser_tail(ps, ii + 1) =~= before + (sep
                        + entry));
                }
            }
            i = i + 1;
        }
        proof {
            assert(spec_ser_tail(self@, n as int) =~= Seq::<char>::empty());
            assert(out@ + Seq::<char>::empty() =~= out@);
        }
        out
    }
}

/// The serialised text from pair `i` on: `key=value` tokens joined by `;`.
pub open spec fn spec_serialize_from(ps: Seq<(Seq<char>, Seq<char>)>, i: int) -> Seq<char>
    decreases ps.len() - i,
{
    if i < 0 || i >= ps.len() {
        Seq::empty()
    } else {
        let entry = ps[i].0 + seq!['='] + ps[i].1;
        if i + 1 < ps.len() {
            entry + seq![';'] + spec_serialize_from(ps, i + 1)
        } else {
            entry
        }
    }
}

/// The serialised form of a whole pair sequence.
pub open spec fn spec_serialize(ps: Seq<(Seq<char>, Seq<char>)>) -> Seq<char> {
    spec_serialize_from(ps, 0)
}

/// What remains to be appended once the first `i` pairs are serialised.
pub open spec fn spec_ser_tail(ps: Seq<(Seq<char>, Seq<char>)>, i: int) -> Seq<char> {
    if i >= ps.len() {
        Seq::empty()
    } else if i == 0 {
        spec_serialize_from(ps, 0)
    } else {
        seq![';'] + spec_serialize_from(ps, i)
    }
}

/// Re-reading a serialised dictionary recovers its mapping, from pair `i`
/// on.
proof fn lemma_round_trip_from(ps: Seq<(Seq<char>, Seq<char>)>, i: int)
    requires
        spec_pairs_wf(ps),
        0 <= i <= ps.len(),
    ensures
        spec_meta_map(spec_serialize_from(ps, i)) =~= spec_pairs_map(ps.skip(i)),
    decreases ps.len() - i,
{
    if i >= ps.len() {
        let text = spec_serialize_from(ps, i);
        assert(text =~= Seq::<char>::empty());
        assert(spec_find(text, ';') == -1);
        assert(spec_find(text, '=') == -1);
        assert(ps.skip(i).len() == 0);
        assert(spec_meta_map(text) =~= Map::<Seq<char>, Seq<char>>::empty());
        assert(spec_pairs_map(ps.skip(i)) =~= Map::<Seq<char>, Seq<char>>::empty());
    } else {
        let k = ps[i].0;
        let v = ps[i].1;
        let entry = k + seq!['='] + v;
        assert(entry[k.len() as int] == '=');
        assert(forall|m: int| 0 <= m < k.len() ==> entry[m] == k[m]);
        lemma_find_at(entry, '=', k.len() as int);
        assert(entry.take(k.len() as int) =~= k);
        assert(entry.skip(k.len() as int + 1) =~= v);
        assert(spec_token_map(entry) =~= Map::<Seq<char>, Seq<char>>::empty().insert(k, v));
        lemma_round_trip_from(ps, i + 1);
        assert(forall|a: int| 0 <= a < ps.skip(i).len() ==> ps.skip(i)[a] == ps[a + i]);
        assert(ps.skip(i).skip(1) =~= ps.skip(i + 1));
        assert(spec_pairs_map(ps.skip(i)) == spec_pairs_map(ps.skip(i + 1)).insert(k, v));
        // the key of this pair is fresh among the later pairs
        assert forall|a: int| 0 <= a < ps.skip(i + 1).len() implies (#[trigger] ps.skip(i + 1)[a]).0
            != k by {
            assert(ps.skip(i + 1)[a] == ps[a + i + 1]);
            assert(spec_str_lt(k, ps[a + i + 1].0));
            lemma_str_lt_irrefl(k);
            if ps[a + i + 1].0 == k {
                assert(false);
            }
        }
        lemma_pairs_map_lookup(ps.skip(i + 1), k);
        assert(!spec_pairs_map(ps.skip(i + 1)).contains_key(k));
        let text = spec_serialize_from(ps, i);
        if i + 1 < ps.len() {
            assert(text == entry + seq![';'] + spec_serialize_from(ps, i + 1));
            assert forall|m: int| 0 <= m < entry.len() implies entry[m] != ';' by {
                if m < k.len() {
                    assert(entry[m] == k[m]);
                } else if m == k.len() {
                    assert(entry[m] == '=');
                } else {
                    assert(entry[m] == v[m - k.len() - 1]);
                }
            }
            assert(forall|m: int| 0 <= m < entry.len() ==> text[m] == entry[m]);
            assert(text[entry.len() as int] == ';');
            lemma_find_at(text, ';', entry.len() as int);
            assert(text.take(entry.len() as int) =~= entry);
            assert(text.skip(entry.len() as int + 1) =~= spec_serialize_from(ps, i + 1));
            assert(spec_meta_map(text) == spec_token_map(entry).union_prefer_right(
                spec_meta_map(spec_serialize_from(ps, i + 1)),
            ));
            assert(spec_token_map(entry).union_prefer_right(
                spec_pairs_map(ps.skip(i + 1)),
            ) =~= spec_pairs_map(ps.skip(i + 1)).insert(k, v));
        } else {
            assert(text == entry);
            assert forall|m: int| 0 <= m < text.len() implies text[m] != ';' by {
                if m < k.len() {
                    assert(text[m] == k[m]);
                } else if m == k.len() {
                    assert(text[m] == '=');
                } else {
                    assert(text[m] == v[m - k.len() - 1]);
                }
            }
            lemma_find_none(text, ';');
            assert(spec_meta_map(text) == spec_token_map(entry));
            assert(ps.skip(i + 1).len() == 0);
            assert(spec_pairs_map(ps.skip(i + 1)) =~= Map::<Seq<char>, Seq<char>>::empty());
            assert(spec_token_map(entry) =~= spec_pairs_map(ps.skip(i + 1)).insert(k, v));
        }
    }
}

/// Decoding the serialised form of a well-formed dictionary yields the same
/// mapping: the metadata round trip.
pub proof fn lemma_metadata_round_trip(m: MetaData)
    requires
        m.wf(),
    ensures
        spec_meta_map(spec_serialize(m@)) == m.spec_map(),
{
    lemma_round_trip_from(m@, 0);
    assert(m@.skip(0) =~= m@);
    assert(spec_meta_map(spec_serialize(m@)) =~= m.spec_map());
}

/// The mapping a UTF-8 byte string denotes once decoded and deserialised.
pub open spec fn spec_meta_of_bytes(b: Seq<u8>) -> Map<Seq<char>, Seq<char>> {
    spec_meta_map(vstd::utf8::decode_utf8(b))
}

impl MetaData {
    /// Decodes a UTF-8 byte string into a dictionary; fails on invalid
    /// UTF-8.
    pub fn deserialize_utf8(bytes: Vec<u8>) -> (r: Result<MetaData, OgawaError>)
        ensures
            r is Ok <==> vstd::utf8::valid_utf8(bytes@),
            r is Ok ==> r->Ok_0.wf() && r->Ok_0.spec_map() == spec_meta_of_bytes(bytes@),
            r is Err ==> r->Err_0 == OgawaError::ParsingError(
                crate::error::ParsingError::FromUtf8Error,
            ),
    {
        match crate::text::string_from_utf8(bytes) {
            Some(s) => Ok(MetaData::deserialize(s.as_str())),
            None => Err(OgawaError::ParsingError(crate::error::ParsingError::FromUtf8Error)),
        }
    }
}

/// Parses the indexed-metadata block from byte position `pos` on: repeatedly
/// a u8 length then that many UTF-8 bytes of serialised metadata; a trailing
/// entry whose length would exactly consume the remainder is an empty record.
pub open spec fn spec_indexed_meta_from(b: Seq<u8>, pos: int) -> Result<
    Seq<Map<Seq<char>, Seq<char>>>,
    OgawaError,
>
    decreases b.len() - pos,
{
    if pos < 0 || pos > b.len() {
        Err(OgawaError::IoError)
    } else if pos == b.len() {
        Ok(Seq::empty())
    } else {
        let m = b[pos] as int;
        if pos + 1 + m == b.len() {
            match spec_indexed_meta_from(b, pos + 1 + m) {
                Ok(rest) => Ok(seq![Map::<Seq<char>, Seq<char>>::empty()] + rest),
                Err(e) => Err(e),
            }
        } else if pos + 1 + m > b.len() {
            Err(OgawaError::IoError)
        } else if vstd::utf8::valid_utf8(b.subrange(pos + 1, pos + 1 + m)) {
            match spec_indexed_meta_from(b, pos + 1 + m) {
                Ok(rest) => Ok(seq![spec_meta_of_bytes(b.subrange(pos + 1, pos + 1 + m))] + rest),
                Err(e) => Err(e),
            }
        } else {
            Err(OgawaError::ParsingError(crate::error::ParsingError::FromUtf8Error))
        }
    }
}

/// The mappings an indexed-metadata table denotes, entry by entry.
pub open spec fn spec_table_models(v: Seq<MetaData>) -> Seq<Map<Seq<char>, Seq<char>>> {
    Seq::new(v.len(), |i: int| v[i].spec_map())
}

/// The mappings an indexed-metadata vector denotes, entry 0 excluded.
pub open spec fn spec_meta_models(v: Seq<MetaData>) -> Seq<Map<Seq<char>, Seq<char>>> {
    Seq::new((v.len() - 1) as nat, |i: int| v[i + 1].spec_map())
}

/// Decodes the archive's indexed-metadata table from a data chunk. Entry 0
/// is reserved as the empty record and prepended before decoding; the rest
/// follow the length-prefixed block layout. An empty chunk yields the
/// reserved entry alone.
pub fn read_indexed_meta_data(data: &DataChunk, reader: &ByteReader) -> (r: Result<
    Vec<MetaData>,
    OgawaError,
>)
    ensures
        r is Ok ==> r->Ok_0@.len() >= 1 && (forall|i: int|
            0 <= i < r->Ok_0@.len() ==> (#[trigger] r->Ok_0@[i]).wf()) && r->Ok_0@[0].spec_map()
            =~= Map::<Seq<char>, Seq<char>>::empty(),
        data.size == 0 ==> r is Ok && r->Ok_0@.len() == 1,
        data.size != 0 && data.size > reader@.len() ==> r is Err && r->Err_0
            == OgawaError::ParsingError(crate::error::ParsingError::InvalidAlembicFile),
        data.size != 0 && data.size <= reader@.len() && data.position + 8 + data.size
            > reader@.len() ==> r is Err && r->Err_0 == OgawaError::IoError,
        data.size != 0 && data.size <= reader@.len() && data.position + 8 + data.size
            <= reader@.len() ==> {
            let payload = reader@.subrange(data.position + 8, data.position + 8 + data.size);
            match spec_indexed_meta_from(payload, 0) {
                Ok(models) => r is Ok && spec_meta_models(r->Ok_0@) == models,
                Err(e) => r is Err && r->Err_0 == e,
            }
        },
{
    let mut output: Vec<MetaData> = Vec::new();
    output.push(MetaData::new());
    if data.size == 0 {
        return Ok(output);
    }
    let buf = match data.read(0, data.size, reader) {
        Ok(b) => b,
        Err(e) => {
            return Err(e);
        },
    };
    let ghost whole = buf@;
    let size = buf.len();
    let mut pos: usize = 0;
    loop
        invariant
            pos <= size,
            size == whole.len(),
            buf@ == whole,
            data.size != 0,
            data.size <= reader@.len(),
            data.position + 8 + data.size <= reader@.len(),
            size == data.size,
            whole == reader@.subrange(data.position + 8, data.position + 8 + data.size),
            output@.len() >= 1,
            forall|i: int| 0 <= i < output@.len() ==> (#[trigger] output@[i]).wf(),
            output@[0].spec_map() =~= Map::<Seq<char>, Seq<char>>::empty(),
            match spec_indexed_meta_from(whole, pos as int) {
                Ok(rest) => spec_indexed_meta_from(whole, 0) is Ok && spec_indexed_meta_from(
                    whole,
                    0,
                )->Ok_0 =~= spec_meta_models(output@) + rest,
                Err(e) => spec_indexed_meta_from(whole, 0) == Err::<
                    Seq<Map<Seq<char>, Seq<char>>>,
                    OgawaError,
                >(e),
            },
        decreases size - pos,
    {
        if pos == size {
            proof {
                assert(spec_meta_models(output@) + Seq::<Map<Seq<char>, Seq<char>>>::empty()
                    =~= spec_meta_models(output@));
            }
            return Ok(output);
        }
        let m = buf[pos] as usize;
        let ghost old_models = spec_meta_models(output@);
        let rem = size - pos - 1;
        if m == rem {
            output.push(MetaData::new());
            pos = pos + 1 + m;
            proof {
                assert(spec_meta_models(output@) =~= old_models + seq![Map::<
                    Seq<char>,
                    Seq<char>,
                >::empty()]);
                match spec_indexed_meta_from(whole, pos as int) {
                    Ok(rest) => {
                        assert((old_models + (seq![Map::<Seq<char>, Seq<char>>::empty()] + rest))
                            =~= (old_models + seq![Map::<Seq<char>, Seq<char>>::empty()]) + rest);
                    },
                    Err(_) => {},
                }
            }
        } else if m > rem {
            return Err(OgawaError::IoError);
        } else {
            let seg = crate::text::copy_range(&buf, pos + 1, pos + 1 + m);
            let md = match MetaData::deserialize_utf8(seg) {
                Ok(md) => md,
                Err(e) => {
                    return Err(e);
                },
            };
            output.push(md);
            pos = pos + 1 + m;
            proof {
                let sub = whole.subrange(pos - m, pos as int);
                assert(spec_meta_models(output@) =~= old_models + seq![spec_meta_of_bytes(sub)]);
                match spec_indexed_meta_from(whole, pos as int) {
                    Ok(rest) => {
                        assert((old_models + (seq![spec_meta_of_bytes(sub)] + rest))
                            =~= (old_models + seq![spec_meta_of_bytes(sub)]) + rest);
                    },
                    Err(_) => {},
                }
            }
        }
    }
}

/// Inserting a pair with a fresh key inserts its binding into the mapping.
proof fn lemma_pairs_map_insert(ps: Seq<(Seq<char>, Seq<char>)>, i: int, k: Seq<char>, v: Seq<char>)
    requires
        0 <= i <= ps.len(),
        forall|a: int| 0 <= a < ps.len() ==> ps[a].0 != k,
    ensures
        spec_pairs_map(ps.insert(i, (k, v))) =~= spec_pairs_map(ps).insert(k, v),
    decreases ps.len(),
{
    let qs = ps.insert(i, (k, v));
    if i == 0 {
        assert(qs.skip(1) =~= ps);
        assert(spec_pairs_map(qs) =~= spec_pairs_map(ps).insert(k, v));
    } else {
        assert(forall|a: int| 0 <= a < ps.skip(1).len() ==> ps.skip(1)[a] == ps[a + 1]);
        assert(qs.skip(1) =~= ps.skip(1).insert(i - 1, (k, v)));
        assert(qs[0] == ps[0]);
        lemma_pairs_map_insert(ps.skip(1), i - 1, k, v);
        assert(ps[0].0 != k);
        assert(spec_pairs_map(qs) =~= spec_pairs_map(ps.skip(1)).insert(k, v).insert(
            ps[0].0,
            ps[0].1,
        ));
        assert(spec_pairs_map(ps.skip(1)).insert(k, v).insert(ps[0].0, ps[0].1)
            =~= spec_pairs_map(ps.skip(1)).insert(ps[0].0, ps[0].1).insert(k, v));
    }
}

} // verus!
