//! Labels of a database: string keys mapped to string values, each key once,
//! kept in the order in which keys first appeared.
use vstd::prelude::*;
use vstd::string::*;
use crate::layout::DecodeError;
use crate::text::{chars_of, pieces, same_text, split_pieces, views};

verus! {

pub type LabelSeq = Seq<(Seq<char>, Seq<char>)>;

/// The label entries as character sequences.
pub open spec fn label_views(e: Seq<(String, String)>) -> LabelSeq {
    e.map_values(|p: (String, String)| (p.0@, p.1@))
}

pub open spec fn has_key(e: LabelSeq, key: Seq<char>) -> bool {
    exists|i: int| 0 <= i < e.len() && (#[trigger] e[i]).0 == key
}

pub open spec fn keys_unique(e: LabelSeq) -> bool {
    forall|i: int, j: int| 0 <= i < e.len() && 0 <= j < e.len() && i != j ==> (#[trigger] e[i]).0 != (
    #[trigger] e[j]).0
}

/// `e` with `key` set to `value`: an existing key keeps its place and takes the
/// new value, a new key goes last.
pub open spec fn with_label(e: LabelSeq, key: Seq<char>, value: Seq<char>) -> LabelSeq {
    if has_key(e, key) {
        let i = choose|i: int| 0 <= i < e.len() && (#[trigger] e[i]).0 == key;
        e.update(i, (key, value))
    } else {
        e.push((key, value))
    }
}

/// The value that `e` holds for `key`, if any.
pub open spec fn label_value(e: LabelSeq, key: Seq<char>) -> Option<Seq<char>> {
    if has_key(e, key) {
        let i = choose|i: int| 0 <= i < e.len() && (#[trigger] e[i]).0 == key;
        Some(e[i].1)
    } else {
        None
    }
}

/// Labels with unique keys, in the order in which the keys were first set.
pub struct LabelMap {
    entries: Vec<(String, String)>,
}

impl View for LabelMap {
    type V = LabelSeq;

    closed spec fn view(&self) -> LabelSeq {
        label_views(self.entries@)
    }
}

impl LabelMap {
    #[verifier::type_invariant]
    spec fn inv(self) -> bool {
        keys_unique(self@)
    }

    pub fn new() -> (r: LabelMap)
        ensures
            r@ == Seq::<(Seq<char>, Seq<char>)>::empty(),
    {
        let r = LabelMap { entries: Vec::new() };
        assert(r@ =~= Seq::<(Seq<char>, Seq<char>)>::empty());
        r
    }

    /// Sets `key` to `value`; a key already present keeps its place.
    pub fn insert(&mut self, key: String, value: String)
        ensures
            final(self)@ == with_label(old(self)@, key@, value@),
    {
        proof {
            use_type_invariant(&*self);
        }
        let mut entries: Vec<(String, String)> = Vec::new();
        std::mem::swap(&mut entries, &mut self.entries);
        let ghost e = label_views(entries@);
        let mut i: usize = 0;
        while i < entries.len()
            invariant
                e == label_views(entries@),
                e == old(self)@,
                keys_unique(e),
                i <= entries@.len(),
                forall|j: int| 0 <= j < i ==> (#[trigger] e[j]).0 != key@,
            decreases entries@.len() - i,
        {
            if entries[i].0 == key {
                proof {
                    let c = choose|c: int| 0 <= c < e.len() && (#[trigger] e[c]).0 == key@;
                    assert(e[i as int].0 == key@);
                    assert(c == i);
                }
                entries.set(i, (key, value));
                assert(label_views(entries@) =~= with_label(e, key@, value@));
                self.entries = entries;
                return;
            }
            i = i + 1;
        }
        entries.push((key, value));
        assert(label_views(entries@) =~= with_label(e, key@, value@));
        self.entries = entries;
    }

    /// The value held for `key`, if any.
    pub fn get(&self, key: &str) -> (r: Option<&String>)
        ensures
            match r {
                Some(v) => label_value(self@, key@) == Some(v@),
                None => label_value(self@, key@).is_none(),
            },
    {
        proof {
            use_type_invariant(self);
        }
        let mut i: usize = 0;
        while i < self.entries.len()
            invariant
                keys_unique(self@),
                i <= self@.len(),
                self@.len() == self.entries@.len(),
                forall|j: int| 0 <= j < i ==> (#[trigger] self@[j]).0 != key@,
            decreases self.entries@.len() - i,
        {
            if same_text(self.entries[i].0.as_str(), key) {
                proof {
                    let c = choose|c: int| 0 <= c < self@.len() && (#[trigger] self@[c]).0 == key@;
                    assert(self@[i as int].0 == key@);
                    assert(c == i);
                }
                return Some(&self.entries[i].1);
            }
            i = i + 1;
        }
        None
    }

    /// The entries, in order.
    pub fn entries(&self) -> (r: &Vec<(String, String)>)
        ensures
            label_views(r@) == self@,
    {
        &self.entries
    }

    pub fn len(&self) -> (r: usize)
        ensures
            r == self@.len(),
    {
        self.entries.len()
    }
}

/// The key and value of a `key=value` segment, split at its first `=`; none
/// when the segment holds no `=`.
pub open spec fn label_pair(seg: Seq<char>) -> Option<(Seq<char>, Seq<char>)> {
    if exists|j: int| 0 <= j < seg.len() && seg[j] == '=' {
        let j = choose|j: int|
            0 <= j < seg.len() && seg[j] == '=' && forall|k: int| 0 <= k < j ==> seg[k] != '=';
        Some((seg.subrange(0, j), seg.subrange(j + 1, seg.len() as int)))
    } else {
        None
    }
}

/// The labels that a sequence of segments sets, one after the other; none as
/// soon as one segment is not a `key=value` pair.
pub open spec fn labels_from(segs: Seq<Seq<char>>) -> Option<LabelSeq>
    decreases segs.len(),
{
    if segs.len() == 0 {
        Some(Seq::empty())
    } else {
        match (labels_from(segs.drop_last()), label_pair(segs.last())) {
            (Some(e), Some(p)) => Some(with_label(e, p.0, p.1)),
            _ => None,
        }
    }
}

/// The labels that the text of a labels column sets: its comma-separated
/// segments in order, the last value of a repeated key winning. Every segment
/// must be a `key=value` pair, so a blank column, one empty segment, sets
/// none and fails.
pub open spec fn parsed_labels(text: Seq<char>) -> Option<LabelSeq> {
    labels_from(pieces(text, ','))
}

proof fn lemma_labels_from_none(segs: Seq<Seq<char>>, k: int)
    requires
        0 <= k <= segs.len(),
        labels_from(segs.subrange(0, k)) is None,
    ensures
        labels_from(segs) is None,
    decreases segs.len() - k,
{
    if k == segs.len() {
        assert(segs.subrange(0, k) =~= segs);
    } else {
        assert(segs.subrange(0, k + 1).drop_last() =~= segs.subrange(0, k));
        lemma_labels_from_none(segs, k + 1);
    }
}

/// Splits one `key=value` segment at its first `=`.
pub fn label_to_key_value(label: &str) -> (r: Result<(String, String), DecodeError>)
    ensures
        match r {
            Ok(p) => label_pair(label@) == Some((p.0@, p.1@)),
            Err(e) => e == DecodeError::MalformedLabel && label_pair(label@) is None,
        },
{
    let cs = chars_of(label);
    let n = cs.len();
    let mut j: usize = 0;
    while j < n
        invariant
            cs@ == label@,
            n == cs@.len(),
            j <= n,
            forall|k: int| 0 <= k < j ==> cs@[k] != '=',
        decreases n - j,
    {
        if cs[j] == '=' {
            proof {
                let c = choose|c: int|
                    0 <= c < label@.len() && label@[c] == '=' && forall|k: int|
                        0 <= k < c ==> label@[k] != '=';
                assert(0 <= j < label@.len() && label@[j as int] == '=' && forall|k: int|
                    0 <= k < j ==> label@[k] != '=');
                if c < j {
                    assert(label@[c] != '=');
                }
                if j < c {
                    assert(label@[j as int] != '=');
                }
            }
            let key = label.substring_char(0, j).to_owned();
            let value = label.substring_char(j + 1, n).to_owned();
            return Ok((key, value));
        }
        j = j + 1;
    }
    Err(DecodeError::MalformedLabel)
}

/// Reads the labels column: comma-separated `key=value` segments.
pub fn parse_labels(text: &str) -> (r: Result<LabelMap, DecodeError>)
    ensures
        match r {
            Ok(m) => parsed_labels(text@) == Some(m@),
            Err(e) => e == DecodeError::MalformedLabel && parsed_labels(text@) is None,
        },
{
    let mut map = LabelMap::new();
    let segs = split_pieces(text, ',');
    let ghost sv = views(segs@);
    let mut i: usize = 0;
    proof {
        assert(sv.subrange(0, 0) =~= Seq::<Seq<char>>::empty());
    }
    while i < segs.len()
        invariant
            sv == views(segs@),
            sv == pieces(text@, ','),
            i <= segs@.len(),
            labels_from(sv.subrange(0, i as int)) == Some(map@),
        decreases segs@.len() - i,
    {
        let ghost prefix = sv.subrange(0, i + 1);
        proof {
            assert(prefix.drop_last() =~= sv.subrange(0, i as int));
            assert(prefix.last() == segs@[i as int]@);
        }
        match label_to_key_value(segs[i].as_str()) {
            Ok(pair) => {
                let (key, value) = pair;
                map.insert(key, value);
            },
            Err(e) => {
                proof {
                    lemma_labels_from_none(sv, i + 1);
                }
                return Err(e);
            },
        }
        i = i + 1;
    }
    assert(sv.subrange(0, segs@.len() as int) =~= sv);
    Ok(map)
}

} // verus!
