//! The EDN data that manifests are written in, as plain values, and the
//! lookups that manifest parsing makes on it.

use crate::text::{lemma_lex_total, lemma_lex_transitive, lex_less, str_eq, str_less};
use vstd::prelude::*;

verus! {

/// An EDN value.
#[derive(Debug)]
pub enum Edn {
    Nil,
    Bool(bool),
    Integer(i64),
    Str(String),
    /// A keyword, by its text without the leading colon: `:aiueos/kind` is
    /// `Keyword("aiueos/kind")`, `:iommu` is `Keyword("iommu")`.
    Keyword(String),
    Symbol(String),
    List(Vec<Edn>),
    Vector(Vec<Edn>),
    SetOf(Vec<Edn>),
    /// Map entries in the order they were written.
    MapOf(Vec<(Edn, Edn)>),
    /// A value of a kind that no manifest field takes (a float, a character,
    /// a tagged literal).
    Unsupported,
}

/// The value stored under the keyword whose text is `key`: the first entry
/// with that key.
pub open spec fn lookup(entries: Seq<(Edn, Edn)>, key: Seq<char>) -> Option<Edn>
    decreases entries.len(),
{
    if entries.len() == 0 {
        None
    } else if entries[0].0 matches Edn::Keyword(k) && k@ == key {
        Some(entries[0].1)
    } else {
        lookup(entries.drop_first(), key)
    }
}

/// The value under `key` when `v` is a map holding it.
pub open spec fn get_spec(v: Edn, key: Seq<char>) -> Option<Edn> {
    match v {
        Edn::MapOf(es) => lookup(es@, key),
        _ => None,
    }
}

/// The elements of a vector, list or set.
pub open spec fn elements(v: Edn) -> Option<Seq<Edn>> {
    match v {
        Edn::Vector(xs) => Some(xs@),
        Edn::List(xs) => Some(xs@),
        Edn::SetOf(xs) => Some(xs@),
        _ => None,
    }
}

/// `e` is the keyword whose text is `t`.
pub open spec fn is_keyword_text(e: Edn, t: Seq<char>) -> bool {
    e matches Edn::Keyword(k) && k@ == t
}

/// The texts of the keywords among `items`.
pub open spec fn keyword_texts(items: Seq<Edn>) -> Set<Seq<char>> {
    Set::new(|t: Seq<char>| exists|i: int| 0 <= i < items.len() && #[trigger] is_keyword_text(items[i], t))
}

/// Every one of `items` is a keyword.
pub open spec fn all_keywords(items: Seq<Edn>) -> bool {
    forall|i: int| 0 <= i < items.len() ==> #[trigger] items[i] is Keyword
}

/// The character views of a sequence of strings.
pub open spec fn texts(v: Seq<String>) -> Seq<Seq<char>> {
    v.map_values(|s: String| s@)
}

/// Strictly increasing in the lexicographic order (so without repeats).
pub open spec fn sorted_texts(v: Seq<Seq<char>>) -> bool {
    forall|i: int, j: int| 0 <= i < j < v.len() ==> lex_less(v[i], v[j])
}

/// Appending an element adds its keyword text, if it is a keyword.
proof fn lemma_keyword_texts_push(s: Seq<Edn>, e: Edn)
    ensures
        forall|t: Seq<char>| #[trigger] keyword_texts(s.push(e)).contains(t) <==> (keyword_texts(s).contains(t) || is_keyword_text(e, t)),
{
    assert forall|t: Seq<char>| #[trigger] keyword_texts(s.push(e)).contains(t) <==> (keyword_texts(s).contains(t) || is_keyword_text(e, t)) by {
        if keyword_texts(s.push(e)).contains(t) {
            let k = choose|k: int| 0 <= k < s.push(e).len() && #[trigger] is_keyword_text(s.push(e)[k], t);
            if k < s.len() {
                assert(is_keyword_text(s[k], t));
            }
        }
        if keyword_texts(s).contains(t) {
            let k = choose|k: int| 0 <= k < s.len() && #[trigger] is_keyword_text(s[k], t);
            assert(is_keyword_text(s.push(e)[k], t));
        }
        if is_keyword_text(e, t) {
            assert(is_keyword_text(s.push(e)[s.len() as int], t));
        }
    }
}

/// The value stored under the keyword `key` in `entries`, if any.
pub fn lookup_in<'a>(entries: &'a Vec<(Edn, Edn)>, key: &str) -> (r: Option<&'a Edn>)
    ensures
        match r {
            Some(x) => lookup(entries@, key@) == Some(*x),
            None => lookup(entries@, key@) is None,
        },
{
    let n = entries.len();
    let mut i: usize = 0;
    assert(entries@.skip(0) =~= entries@);
    while i < n
        invariant
            n == entries@.len(),
            i <= n,
            lookup(entries@, key@) == lookup(entries@.skip(i as int), key@),
        decreases n - i,
    {
        assert(entries@.skip(i as int).drop_first() =~= entries@.skip(i + 1));
        if let Edn::Keyword(k) = &entries[i].0 {
            if str_eq(k.as_str(), key) {
                return Some(&entries[i].1);
            }
        }
        i = i + 1;
    }
    None
}

/// The value under the keyword `key` when `v` is a map holding it.
pub fn get<'a>(v: &'a Edn, key: &str) -> (r: Option<&'a Edn>)
    ensures
        match r {
            Some(x) => get_spec(*v, key@) == Some(*x),
            None => get_spec(*v, key@) is None,
        },
{
    match v {
        Edn::MapOf(es) => lookup_in(es, key),
        _ => None,
    }
}

/// Insert `t` into a strictly increasing vector of strings, keeping it
/// strictly increasing; nothing changes when `t` is already there.
fn insert_sorted(out: &mut Vec<String>, t: String)
    requires
        sorted_texts(texts(old(out)@)),
    ensures
        sorted_texts(texts(final(out)@)),
        texts(final(out)@).to_set() == texts(old(out)@).to_set().insert(t@),
{
    let ghost old_t = texts(out@);
    let n = out.len();
    let mut j: usize = 0;
    while j < n && str_less(out[j].as_str(), t.as_str())
        invariant
            n == out@.len(),
            j <= n,
            out@ == old(out)@,
            forall|k: int| 0 <= k < j ==> lex_less(#[trigger] texts(out@)[k], t@),
        decreases n - j,
    {
        j = j + 1;
    }
    if j < n && str_eq(out[j].as_str(), t.as_str()) {
        assert(texts(out@)[j as int] == t@);
        assert(texts(out@).to_set().insert(t@) =~= texts(out@).to_set());
        return;
    }
    proof {
        if j < n {
            lemma_lex_total(t@, out@[j as int]@);
            assert(lex_less(t@, old_t[j as int]));
        }
    }
    out.insert(j, t);
    proof {
        let new_t = texts(out@);
        assert(new_t =~= old_t.insert(j as int, t@));
        assert forall|a: int, b: int| 0 <= a < b < new_t.len() implies lex_less(new_t[a], new_t[b]) by {
            if b < j {
            } else if a < j && b == j {
            } else if a < j {
                if b > j + 1 {
                    lemma_lex_transitive(t@, old_t[j as int], old_t[b - 1]);
                }
                lemma_lex_transitive(new_t[a], t@, new_t[b]);
            } else if a == j {
                if b > j + 1 {
                    lemma_lex_transitive(t@, old_t[j as int], old_t[b - 1]);
                }
            } else {
            }
        }
        assert forall|x: Seq<char>| new_t.to_set().contains(x) <==> old_t.to_set().insert(t@).contains(x) by {
            if new_t.to_set().contains(x) {
                let k = choose|k: int| 0 <= k < new_t.len() && new_t[k] == x;
                if k < j {
                    assert(old_t[k] == x);
                } else if k > j {
                    assert(old_t[k - 1] == x);
                }
            }
            if old_t.to_set().contains(x) {
                let k = choose|k: int| 0 <= k < old_t.len() && old_t[k] == x;
                if k < j {
                    assert(new_t[k] == x);
                } else {
                    assert(new_t[k + 1] == x);
                }
            }
            if x == t@ {
                assert(new_t[j as int] == x);
            }
        }
        assert(new_t.to_set() =~= old_t.to_set().insert(t@));
    }
}

/// The keyword texts among the elements of a vector, list or set, sorted and
/// without repeats; empty for `None` and for any other value.
pub fn kw_collection(v: Option<&Edn>) -> (r: Vec<String>)
    ensures
        sorted_texts(texts(r@)),
        texts(r@).to_set() == match v {
            Some(x) => match elements(*x) {
                Some(items) => keyword_texts(items),
                None => Set::empty(),
            },
            None => Set::<Seq<char>>::empty(),
        },
{
    let mut out: Vec<String> = Vec::new();
    let items: &Vec<Edn> = match v {
        Some(Edn::Vector(xs)) => xs,
        Some(Edn::List(xs)) => xs,
        Some(Edn::SetOf(xs)) => xs,
        _ => {
            assert(texts(out@).to_set() =~= Set::<Seq<char>>::empty());
            return out;
        },
    };
    let n = items.len();
    let mut i: usize = 0;
    while i < n
        invariant
            n == items@.len(),
            i <= n,
            sorted_texts(texts(out@)),
            texts(out@).to_set() == keyword_texts(items@.take(i as int)),
        decreases n - i,
    {
        if let Edn::Keyword(k) = &items[i] {
            insert_sorted(&mut out, k.clone());
        }
        proof {
            assert(items@.take(i + 1) =~= items@.take(i as int).push(items@[i as int]));
            lemma_keyword_texts_push(items@.take(i as int), items@[i as int]);
            if let Edn::Keyword(k) = items@[i as int] {
                assert(texts(out@).to_set() =~= keyword_texts(items@.take(i + 1)));
            } else {
                assert(keyword_texts(items@.take(i + 1)) =~= keyword_texts(items@.take(i as int)));
            }
        }
        i = i + 1;
    }
    assert(items@.take(n as int) =~= items@);
    out
}

} // verus!
