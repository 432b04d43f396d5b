//! The backends this crate provides, and the identifier format they share.
//!
//! An assigned identifier is rendered as 24 hex characters, the usual
//! document-store object-identifier notation. `InMemoryClient` is a
//! reliable in-memory backend; `FailingClient` is one whose every write
//! fails. Both implement `PersistencyDriver` and are verified against its
//! contract.

use crate::todo::{PersistencyDriver, Task};
use vstd::prelude::*;
use vstd::string::StrSliceExecFns;
use vstd::string::StringExecFns;

verus! {

/// Whether `c` is a hex digit, either case.
pub open spec fn is_hex_digit(c: char) -> bool {
    (48 <= c as u32 && c as u32 <= 57) || (97 <= c as u32 && c as u32 <= 102) || (65 <= c as u32
        && c as u32 <= 70)
}

/// Whether `s` is a well-formed object identifier: exactly 24 hex characters.
pub open spec fn is_object_id(s: Seq<char>) -> bool {
    s.len() == 24 && (forall|i: int| 0 <= i < 24 ==> is_hex_digit(#[trigger] s[i]))
}

/// The lower-case character for the hex digit value `v`.
pub open spec fn hex_char(v: int) -> char {
    if v == 0 {
        '0'
    } else if v == 1 {
        '1'
    } else if v == 2 {
        '2'
    } else if v == 3 {
        '3'
    } else if v == 4 {
        '4'
    } else if v == 5 {
        '5'
    } else if v == 6 {
        '6'
    } else if v == 7 {
        '7'
    } else if v == 8 {
        '8'
    } else if v == 9 {
        '9'
    } else if v == 10 {
        'a'
    } else if v == 11 {
        'b'
    } else if v == 12 {
        'c'
    } else if v == 13 {
        'd'
    } else if v == 14 {
        'e'
    } else if v == 15 {
        'f'
    } else {
        '0'
    }
}

/// The digit value of a lower-case hex character, 16 for any other.
pub open spec fn hex_val(c: char) -> int {
    if c == '0' {
        0
    } else if c == '1' {
        1
    } else if c == '2' {
        2
    } else if c == '3' {
        3
    } else if c == '4' {
        4
    } else if c == '5' {
        5
    } else if c == '6' {
        6
    } else if c == '7' {
        7
    } else if c == '8' {
        8
    } else if c == '9' {
        9
    } else if c == 'a' {
        10
    } else if c == 'b' {
        11
    } else if c == 'c' {
        12
    } else if c == 'd' {
        13
    } else if c == 'e' {
        14
    } else if c == 'f' {
        15
    } else {
        16
    }
}

/// The `k`-th hex digit of `n`, counted from the least significant; 0 for
/// the digits beyond the width of `u64`.
pub open spec fn nibble_of(n: u64, k: int) -> u64 {
    if 0 <= k < 16 {
        (n >> ((4 * k) as u64)) & 0xf
    } else {
        0
    }
}

/// The 24-character identifier assigned to the `n`-th stored record:
/// `n` in hex, zero-padded on the left.
pub open spec fn id_spec(n: u64) -> Seq<char> {
    Seq::new(24, |j: int| hex_char(nibble_of(n, 23 - j) as int))
}

/// `hex_char` hits hex digits only, and `hex_val` inverts it.
proof fn lemma_hex_char_val()
    ensures
        forall|v: int|
            0 <= v < 16 ==> is_hex_digit(#[trigger] hex_char(v)) && hex_val(hex_char(v)) == v,
{
}

/// A hex digit of a `u64` is below 16.
proof fn lemma_nibble_bound(n: u64, k: int)
    ensures
        nibble_of(n, k) < 16,
{
    if 0 <= k < 16 {
        let s = (4 * k) as u64;
        assert((n >> s) & 0xf < 16) by (bit_vector);
    }
}

/// Every assigned identifier is well-formed.
pub proof fn lemma_id_spec_valid(n: u64)
    ensures
        is_object_id(id_spec(n)),
{
    lemma_hex_char_val();
    assert forall|j: int| 0 <= j < 24 implies is_hex_digit(#[trigger] id_spec(n)[j]) by {
        lemma_nibble_bound(n, 23 - j);
    }
}

/// A `u64` is determined by its 16 hex digits.
proof fn lemma_nibbles_determine(a: u64, b: u64)
    requires
        forall|k: int| 0 <= k < 16 ==> nibble_of(a, k) == nibble_of(b, k),
    ensures
        a == b,
{
    assert(nibble_of(a, 0) == nibble_of(b, 0));
    assert(nibble_of(a, 1) == nibble_of(b, 1));
    assert(nibble_of(a, 2) == nibble_of(b, 2));
    assert(nibble_of(a, 3) == nibble_of(b, 3));
    assert(nibble_of(a, 4) == nibble_of(b, 4));
    assert(nibble_of(a, 5) == nibble_of(b, 5));
    assert(nibble_of(a, 6) == nibble_of(b, 6));
    assert(nibble_of(a, 7) == nibble_of(b, 7));
    assert(nibble_of(a, 8) == nibble_of(b, 8));
    assert(nibble_of(a, 9) == nibble_of(b, 9));
    assert(nibble_of(a, 10) == nibble_of(b, 10));
    assert(nibble_of(a, 11) == nibble_of(b, 11));
    assert(nibble_of(a, 12) == nibble_of(b, 12));
    assert(nibble_of(a, 13) == nibble_of(b, 13));
    assert(nibble_of(a, 14) == nibble_of(b, 14));
    assert(nibble_of(a, 15) == nibble_of(b, 15));
    assert(a == b) by (bit_vector)
        requires
            (a >> 0u64) & 0xf == (b >> 0u64) & 0xf,
            (a >> 4u64) & 0xf == (b >> 4u64) & 0xf,
            (a >> 8u64) & 0xf == (b >> 8u64) & 0xf,
            (a >> 12u64) & 0xf == (b >> 12u64) & 0xf,
            (a >> 16u64) & 0xf == (b >> 16u64) & 0xf,
            (a >> 20u64) & 0xf == (b >> 20u64) & 0xf,
            (a >> 24u64) & 0xf == (b >> 24u64) & 0xf,
            (a >> 28u64) & 0xf == (b >> 28u64) & 0xf,
            (a >> 32u64) & 0xf == (b >> 32u64) & 0xf,
            (a >> 36u64) & 0xf == (b >> 36u64) & 0xf,
            (a >> 40u64) & 0xf == (b >> 40u64) & 0xf,
            (a >> 44u64) & 0xf == (b >> 44u64) & 0xf,
            (a >> 48u64) & 0xf == (b >> 48u64) & 0xf,
            (a >> 52u64) & 0xf == (b >> 52u64) & 0xf,
            (a >> 56u64) & 0xf == (b >> 56u64) & 0xf,
            (a >> 60u64) & 0xf == (b >> 60u64) & 0xf,
    ;
}

/// Distinct record numbers are assigned distinct identifiers.
pub proof fn lemma_id_spec_injective(a: u64, b: u64)
    requires
        id_spec(a) == id_spec(b),
    ensures
        a == b,
{
    lemma_hex_char_val();
    assert forall|k: int| 0 <= k < 16 implies nibble_of(a, k) == nibble_of(b, k) by {
        let j = 23 - k;
        lemma_nibble_bound(a, k);
        lemma_nibble_bound(b, k);
        let va = nibble_of(a, k) as int;
        let vb = nibble_of(b, k) as int;
        assert(id_spec(a)[j] == hex_char(va));
        assert(id_spec(b)[j] == hex_char(vb));
        assert(id_spec(a)[j] == id_spec(b)[j]);
        assert(hex_val(hex_char(va)) == va);
        assert(hex_val(hex_char(vb)) == vb);
    }
    lemma_nibbles_determine(a, b);
}

/// Whether `s` is a well-formed object identifier: exactly 24 hex
/// characters, either case.
pub fn check_object_id(s: &str) -> (r: bool)
    ensures
        r == is_object_id(s@),
{
    let n = s.unicode_len();
    if n != 24 {
        return false;
    }
    let mut i: usize = 0;
    while i < 24
        invariant
            s@.len() == 24,
            0 <= i <= 24,
            forall|j: int| 0 <= j < i ==> is_hex_digit(#[trigger] s@[j]),
        decreases 24 - i,
    {
        let c = s.get_char(i);
        let v = c as u32;
        if !((48 <= v && v <= 57) || (97 <= v && v <= 102) || (65 <= v && v <= 70)) {
            return false;
        }
        i += 1;
    }
    true
}

/// The one-character string for the hex digit value `v`.
fn hex_char_str(v: u64) -> (r: &'static str)
    requires
        v < 16,
    ensures
        r@.len() == 1,
        r@[0] == hex_char(v as int),
{
    if v == 0 {
        proof {
            reveal_strlit("0");
        }
        "0"
    } else if v == 1 {
        proof {
            reveal_strlit("1");
        }
        "1"
    } else if v == 2 {
        proof {
            reveal_strlit("2");
        }
        "2"
    } else if v == 3 {
        proof {
            reveal_strlit("3");
        }
        "3"
    } else if v == 4 {
        proof {
            reveal_strlit("4");
        }
        "4"
    } else if v == 5 {
        proof {
            reveal_strlit("5");
        }
        "5"
    } else if v == 6 {
        proof {
            reveal_strlit("6");
        }
        "6"
    } else if v == 7 {
        proof {
            reveal_strlit("7");
        }
        "7"
    } else if v == 8 {
        proof {
            reveal_strlit("8");
        }
        "8"
    } else if v == 9 {
        proof {
            reveal_strlit("9");
        }
        "9"
    } else if v == 10 {
        proof {
            reveal_strlit("a");
        }
        "a"
    } else if v == 11 {
        proof {
            reveal_strlit("b");
        }
        "b"
    } else if v == 12 {
        proof {
            reveal_strlit("c");
        }
        "c"
    } else if v == 13 {
        proof {
            reveal_strlit("d");
        }
        "d"
    } else if v == 14 {
        proof {
            reveal_strlit("e");
        }
        "e"
    } else {
        proof {
            reveal_strlit("f");
        }
        "f"
    }
}

/// Renders the identifier assigned to the `n`-th stored record.
fn render_id(n: u64) -> (r: String)
    ensures
        r@ == id_spec(n),
{
    let mut r = String::new();
    let mut i: usize = 0;
    while i < 24
        invariant
            0 <= i <= 24,
            r@.len() == i,
            forall|j: int| 0 <= j < i ==> r@[j] == id_spec(n)[j],
        decreases 24 - i,
    {
        let nib: u64 = if i < 8 {
            0
        } else {
            let sh: usize = 4 * (23 - i);
            (n >> (sh as u64)) & 0xf
        };
        proof {
            if i >= 8 {
                let sh64 = (4 * (23 - i as int)) as u64;
                assert((n >> sh64) & 0xf < 16) by (bit_vector);
            }
            assert(nib == nibble_of(n, 23 - i as int));
        }
        let d = hex_char_str(nib);
        r.append(d);
        i += 1;
    }
    proof {
        assert(r@ =~= id_spec(n));
    }
    r
}

/// A reliable in-memory backend: records live in process memory and every
/// operation succeeds. The `i`-th stored record is assigned the identifier
/// `id_spec(i)`.
pub struct InMemoryClient {
    entries: Vec<(String, String)>,
}

impl InMemoryClient {
    /// Well-formedness: the `i`-th record carries the `i`-th assigned
    /// identifier. Every reachable `InMemoryClient` value satisfies this;
    /// it is the type's invariant.
    #[verifier::type_invariant]
    pub closed spec fn wf(&self) -> bool {
        forall|i: int|
            0 <= i < self.entries@.len() ==> (#[trigger] self.entries@[i]).0@ == id_spec(i as u64)
    }

    spec fn has_id(&self, k: Seq<char>) -> bool {
        exists|i: int| 0 <= i < self.entries@.len() && (#[trigger] self.entries@[i]).0@ == k
    }

    spec fn idx_of(&self, k: Seq<char>) -> int {
        choose|i: int| 0 <= i < self.entries@.len() && (#[trigger] self.entries@[i]).0@ == k
    }

    /// A fresh, empty backend.
    pub fn new() -> (r: Self)
        ensures
            r.contents() == Map::<Seq<char>, Seq<char>>::empty(),
            r.reliable(),
            !r.failing(),
    {
        let r = InMemoryClient { entries: Vec::new() };
        proof {
            assert(r.contents() =~= Map::<Seq<char>, Seq<char>>::empty());
        }
        r
    }

    /// Stored identifiers are pairwise distinct.
    proof fn lemma_distinct(&self)
        requires
            self.wf(),
            self.entries@.len() <= 0x1_0000_0000_0000_0000,
        ensures
            forall|i: int, j: int|
                0 <= i < self.entries@.len() && 0 <= j < self.entries@.len() && i != j ==> (
                #[trigger] self.entries@[i]).0@ != (#[trigger] self.entries@[j]).0@,
    {
        assert forall|i: int, j: int|
            0 <= i < self.entries@.len() && 0 <= j < self.entries@.len() && i != j implies (
        #[trigger] self.entries@[i]).0@ != (#[trigger] self.entries@[j]).0@ by {
            if self.entries@[i].0@ == self.entries@[j].0@ {
                lemma_id_spec_injective(i as u64, j as u64);
            }
        }
    }

    /// The record at index `i` is what `contents` maps its identifier to.
    proof fn lemma_contents_at(&self, i: int)
        requires
            self.wf(),
            self.entries@.len() <= 0x1_0000_0000_0000_0000,
            0 <= i < self.entries@.len(),
        ensures
            self.contents().contains_key(self.entries@[i].0@),
            self.contents()[self.entries@[i].0@] == self.entries@[i].1@,
            self.idx_of(self.entries@[i].0@) == i,
    {
        self.lemma_distinct();
        let k = self.entries@[i].0@;
        assert(self.has_id(k));
        let j = self.idx_of(k);
        assert(0 <= j < self.entries@.len() && self.entries@[j].0@ == k);
        assert(j == i);
    }
}

/// A malformed identifier is never among the stored identifiers of an
/// in-memory backend, so by the driver contract a lookup of it returns
/// empty.
pub proof fn lemma_malformed_id_not_stored(client: &InMemoryClient, id: Seq<char>)
    requires
        client.wf(),
        !is_object_id(id),
    ensures
        !client.contents().contains_key(id),
{
    if client.has_id(id) {
        let i = choose|i: int|
            0 <= i < client.entries@.len() && (#[trigger] client.entries@[i]).0@ == id;
        lemma_id_spec_valid(i as u64);
    }
}

impl PersistencyDriver for InMemoryClient {
    closed spec fn contents(&self) -> Map<Seq<char>, Seq<char>> {
        Map::new(|k: Seq<char>| self.has_id(k), |k: Seq<char>| self.entries@[self.idx_of(k)].1@)
    }

    open spec fn reliable(&self) -> bool {
        true
    }

    open spec fn failing(&self) -> bool {
        false
    }

    fn insert(&mut self, title: &str) -> (r: Option<String>) {
        proof {
            use_type_invariant(&*self);
        }
        let len = self.entries.len();
        let id = render_id(len as u64);
        proof {
            lemma_id_spec_valid(len as u64);
        }
        let entry = (id.clone(), String::from_str(title));
        let mut entries: Vec<(String, String)> = Vec::new();
        std::mem::swap(&mut entries, &mut self.entries);
        entries.push(entry);
        proof {
            assert forall|i: int| 0 <= i < entries@.len() implies (#[trigger] entries@[i]).0@
                == id_spec(i as u64) by {
                if i < len {
                    assert(entries@[i] == old(self).entries@[i]);
                }
            }
        }
        self.entries = entries;
        proof {
            use_type_invariant(&*self);
            let oldc = old(self).contents();
            let newc = self.contents();
            let target = oldc.insert(id@, title@);
            assert(self.entries@[len as int] == entry);
            assert(!old(self).has_id(id@)) by {
                if old(self).has_id(id@) {
                    let i = choose|i: int|
                        0 <= i < old(self).entries@.len() && (#[trigger] old(
                            self,
                        ).entries@[i]).0@ == id@;
                    lemma_id_spec_injective(i as u64, len as u64);
                }
            }
            assert forall|k: Seq<char>| #![auto] newc.contains_key(k) implies
                target.contains_key(k) && newc[k] == target[k] by {
                let i = self.idx_of(k);
                assert(0 <= i < self.entries@.len() && self.entries@[i].0@ == k);
                self.lemma_contents_at(i);
                if i < len {
                    assert(self.entries@[i] == old(self).entries@[i]);
                    assert(old(self).has_id(k));
                    old(self).lemma_contents_at(i);
                    assert(k != id@);
                } else {
                    assert(k == id@);
                    assert(newc[k] == title@);
                }
            }
            assert forall|k: Seq<char>| #![auto] target.contains_key(k) implies
                newc.contains_key(k) by {
                if k == id@ {
                    assert(self.entries@[len as int].0@ == k);
                    assert(self.has_id(k));
                } else {
                    let i = old(self).idx_of(k);
                    assert(0 <= i < old(self).entries@.len() && old(self).entries@[i].0@ == k);
                    assert(self.entries@[i] == old(self).entries@[i]);
                    assert(self.has_id(k));
                }
            }
            assert(newc =~= target);
        }
        Some(id)
    }

    fn get(&self, id: String) -> (r: Option<Task>) {
        if !check_object_id(id.as_str()) {
            proof {
                use_type_invariant(self);
                lemma_malformed_id_not_stored(self, id@);
            }
            return None;
        }
        let count = self.entries.len();
        let mut i: usize = 0;
        while i < count
            invariant
                count == self.entries@.len(),
                0 <= i <= count,
                forall|j: int| 0 <= j < i ==> (#[trigger] self.entries@[j]).0@ != id@,
            decreases count - i,
        {
            if self.entries[i].0 == id {
                let title = self.entries[i].1.clone();
                proof {
                    use_type_invariant(self);
                    self.lemma_contents_at(i as int);
                }
                return Some(Task { title });
            }
            i += 1;
        }
        proof {
            assert(!self.has_id(id@));
        }
        None
    }
}

/// A backend whose every write fails: it stores nothing and refuses every
/// insertion, and so models a store that cannot be written to.
pub struct FailingClient {}

impl FailingClient {
    /// A fresh backend that will refuse every write.
    pub fn new() -> (r: Self)
        ensures
            r.contents() == Map::<Seq<char>, Seq<char>>::empty(),
            r.failing(),
            !r.reliable(),
    {
        FailingClient {}
    }
}

impl PersistencyDriver for FailingClient {
    open spec fn contents(&self) -> Map<Seq<char>, Seq<char>> {
        Map::empty()
    }

    open spec fn reliable(&self) -> bool {
        false
    }

    open spec fn failing(&self) -> bool {
        true
    }

    fn insert(&mut self, title: &str) -> (r: Option<String>) {
        None
    }

    fn get(&self, id: String) -> (r: Option<Task>) {
        None
    }
}

} // verus!
