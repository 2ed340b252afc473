//! The fixed table of feedback dots: each has a name, a compact index into
//! the aggregation table, and the numeric id that the device uses for it.
//! Names are `TrueGear` followed by a row letter `A`..`H` and a column digit
//! `1`..`5` for the shake dots, and `TrueGearArmL` / `TrueGearArmR` for the
//! two electrical dots.
use vstd::prelude::*;

verus! {

/// Number of shake dots; they take the compact indices `0..NUM_SHAKES`.
pub const NUM_SHAKES: usize = 40;

/// Number of electrical dots; they follow the shake dots.
pub const NUM_ELECTRICAL: usize = 2;

/// Number of dots in all.
pub const NUM_DOTS: usize = 42;

pub open spec fn dot_name_prefix() -> Seq<char> {
    seq!['T', 'r', 'u', 'e', 'G', 'e', 'a', 'r']
}

pub open spec fn row_letters() -> Seq<char> {
    seq!['A', 'B', 'C', 'D', 'E', 'F', 'G', 'H']
}

pub open spec fn column_digits() -> Seq<char> {
    seq!['1', '2', '3', '4', '5']
}

/// The name of the dot with compact index `i`.
pub open spec fn dot_name(i: int) -> Seq<char> {
    if i < NUM_SHAKES {
        dot_name_prefix() + seq![row_letters()[i / 5], column_digits()[i % 5]]
    } else if i == NUM_SHAKES {
        dot_name_prefix() + seq!['A', 'r', 'm', 'L']
    } else {
        dot_name_prefix() + seq!['A', 'r', 'm', 'R']
    }
}

/// The device's id of the first dot of each row; the ids of a row step by 4.
pub open spec fn row_base_ids() -> Seq<int> {
    seq![1, 0, 100, 101, 102, 103, 3, 2]
}

/// The device's id of the dot with compact index `i`.
pub open spec fn device_id(i: int) -> int {
    if i < NUM_SHAKES {
        row_base_ids()[i / 5] + 4 * (i % 5)
    } else if i == NUM_SHAKES {
        0
    } else {
        100
    }
}

/// The compact index that `key` names, if any.
pub open spec fn resolves_to(key: Seq<char>, i: int) -> bool {
    0 <= i < NUM_DOTS && key == dot_name(i)
}

/// No two dots share a name: a name resolves to at most one compact index.
pub proof fn lemma_dot_names_unique(i: int, j: int)
    requires
        0 <= i < NUM_DOTS,
        0 <= j < NUM_DOTS,
        dot_name(i) == dot_name(j),
    ensures
        i == j,
{
    let (a, b) = (dot_name(i), dot_name(j));
    assert(a[8] == b[8]);
    assert(a.len() == b.len());
    if i < NUM_SHAKES && j < NUM_SHAKES {
        assert(a[9] == b[9]);
    } else if i >= NUM_SHAKES && j >= NUM_SHAKES {
        assert(a[11] == b[11]);
    }
}

/// Resolution is a fixed function of the key: a key resolves to at most one
/// compact index, and every compact index is resolved from its own name.
pub proof fn lemma_resolution_is_stable(key: Seq<char>, i: int, j: int)
    ensures
        resolves_to(key, i) && resolves_to(key, j) ==> i == j,
        0 <= i < NUM_DOTS ==> resolves_to(dot_name(i), i),
{
    if resolves_to(key, i) && resolves_to(key, j) {
        lemma_dot_names_unique(i, j);
    }
}

/// Read-only lookup from dot name to compact index.
pub struct DotNameIndexMap {}

/// The lookup of dot names.
pub fn get_dot_name_compact_index_map() -> (r: DotNameIndexMap) {
    DotNameIndexMap {  }
}

fn row_of(c: char) -> (r: Option<usize>)
    ensures
        match r {
            Some(j) => j < 8 && row_letters()[j as int] == c,
            None => forall|j: int| 0 <= j < 8 ==> row_letters()[j] != c,
        },
{
    if c == 'A' {
        Some(0)
    } else if c == 'B' {
        Some(1)
    } else if c == 'C' {
        Some(2)
    } else if c == 'D' {
        Some(3)
    } else if c == 'E' {
        Some(4)
    } else if c == 'F' {
        Some(5)
    } else if c == 'G' {
        Some(6)
    } else if c == 'H' {
        Some(7)
    } else {
        None
    }
}

fn column_of(c: char) -> (r: Option<usize>)
    ensures
        match r {
            Some(j) => j < 5 && column_digits()[j as int] == c,
            None => forall|j: int| 0 <= j < 5 ==> column_digits()[j] != c,
        },
{
    if c == '1' {
        Some(0)
    } else if c == '2' {
        Some(1)
    } else if c == '3' {
        Some(2)
    } else if c == '4' {
        Some(3)
    } else if c == '5' {
        Some(4)
    } else {
        None
    }
}

fn has_dot_prefix(key: &str) -> (r: bool)
    requires
        key@.len() >= 8,
    ensures
        r == (key@.subrange(0, 8) == dot_name_prefix()),
{
    let r = key.get_char(0) == 'T' && key.get_char(1) == 'r' && key.get_char(2) == 'u'
        && key.get_char(3) == 'e' && key.get_char(4) == 'G' && key.get_char(5) == 'e'
        && key.get_char(6) == 'a' && key.get_char(7) == 'r';
    proof {
        if r {
            assert(key@.subrange(0, 8) =~= dot_name_prefix());
        } else if key@.subrange(0, 8) == dot_name_prefix() {
            assert(key@.subrange(0, 8)[0] == dot_name_prefix()[0]);
            assert(key@.subrange(0, 8)[1] == dot_name_prefix()[1]);
            assert(key@.subrange(0, 8)[2] == dot_name_prefix()[2]);
            assert(key@.subrange(0, 8)[3] == dot_name_prefix()[3]);
            assert(key@.subrange(0, 8)[4] == dot_name_prefix()[4]);
            assert(key@.subrange(0, 8)[5] == dot_name_prefix()[5]);
            assert(key@.subrange(0, 8)[6] == dot_name_prefix()[6]);
            assert(key@.subrange(0, 8)[7] == dot_name_prefix()[7]);
        }
    }
    r
}

proof fn lemma_dot_name_shape(i: int)
    requires
        0 <= i < NUM_DOTS,
    ensures
        dot_name(i).len() == if i < NUM_SHAKES { 10int } else { 12int },
        dot_name(i).subrange(0, 8) == dot_name_prefix(),
{
    assert(dot_name(i).subrange(0, 8) =~= dot_name_prefix());
}

impl DotNameIndexMap {
    /// The compact index of the dot named `key`; `None` for any other text.
    pub fn get(&self, key: &str) -> (r: Option<usize>)
        ensures
            match r {
                Some(i) => resolves_to(key@, i as int),
                None => forall|i: int| !resolves_to(key@, i),
            },
    {
        let len = key.unicode_len();
        if (len != 10 && len != 12) || !has_dot_prefix(key) {
            proof {
                assert forall|i: int| !resolves_to(key@, i) by {
                    if 0 <= i < NUM_DOTS {
                        lemma_dot_name_shape(i);
                    }
                }
            }
            return None;
        }
        if len == 10 {
            let row = row_of(key.get_char(8));
            let col = column_of(key.get_char(9));
            match (row, col) {
                (Some(l), Some(d)) => {
                    let i = l * 5 + d;
                    proof {
                        assert(i / 5 == l && i % 5 == d);
                        assert(key@ =~= key@.subrange(0, 8) + seq![key@[8], key@[9]]);
                        assert(key@ =~= dot_name(i as int));
                    }
                    Some(i)
                },
                _ => {
                    proof {
                        assert forall|i: int| !resolves_to(key@, i) by {
                            if resolves_to(key@, i) {
                                lemma_dot_name_shape(i);
                                assert(dot_name(i)[8] == row_letters()[i / 5]);
                                assert(dot_name(i)[9] == column_digits()[i % 5]);
                            }
                        }
                    }
                    None
                },
            }
        } else {
            let a = key.get_char(8) == 'A' && key.get_char(9) == 'r' && key.get_char(10) == 'm';
            let last = key.get_char(11);
            if a && (last == 'L' || last == 'R') {
                let i: usize = if last == 'L' { 40 } else { 41 };
                proof {
                    assert(key@ =~= dot_name(i as int));
                }
                Some(i)
            } else {
                proof {
                    assert forall|i: int| !resolves_to(key@, i) by {
                        if resolves_to(key@, i) {
                            lemma_dot_name_shape(i);
                            assert(dot_name(i)[8] == 'A');
                            assert(dot_name(i)[9] == 'r');
                            assert(dot_name(i)[10] == 'm');
                            assert(dot_name(i)[11] == 'L' || dot_name(i)[11] == 'R');
                        }
                    }
                }
                None
            }
        }
    }

    /// The device's id of the dot with compact index `i`.
    pub fn device_id(&self, i: usize) -> (r: u8)
        requires
            i < NUM_DOTS,
        ensures
            r as int == device_id(i as int),
    {
        if i < NUM_SHAKES {
            let row = i / 5;
            let base: u8 = if row == 0 {
                1
            } else if row == 1 {
                0
            } else if row == 2 {
                100
            } else if row == 3 {
                101
            } else if row == 4 {
                102
            } else if row == 5 {
                103
            } else if row == 6 {
                3
            } else {
                2
            };
            base + 4 * (i % 5) as u8
        } else if i == NUM_SHAKES {
            0
        } else {
            100
        }
    }
}

} // verus!
