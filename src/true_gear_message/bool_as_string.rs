//! The device service spells booleans as the words `True` and `False`.
use vstd::prelude::*;

verus! {

pub open spec fn true_word() -> Seq<char> {
    seq!['T', 'r', 'u', 'e']
}

pub open spec fn false_word() -> Seq<char> {
    seq!['F', 'a', 'l', 's', 'e']
}

/// The word for `v`.
pub open spec fn word_of(v: bool) -> Seq<char> {
    if v {
        true_word()
    } else {
        false_word()
    }
}

/// The word that stands for `v`.
pub fn serialize(v: &bool) -> (r: &'static str)
    ensures
        r@ == word_of(*v),
{
    if *v {
        proof {
            reveal_strlit("True");
            assert("True"@ =~= true_word());
        }
        "True"
    } else {
        proof {
            reveal_strlit("False");
            assert("False"@ =~= false_word());
        }
        "False"
    }
}

/// The boolean that `s` spells; `None` for any text but the two words.
pub fn deserialize(s: &str) -> (r: Option<bool>)
    ensures
        r == Some(true) <==> s@ == true_word(),
        r == Some(false) <==> s@ == false_word(),
        r is None <==> (s@ != true_word() && s@ != false_word()),
{
    let len = s.unicode_len();
    if len == 4 && s.get_char(0) == 'T' && s.get_char(1) == 'r' && s.get_char(2) == 'u'
        && s.get_char(3) == 'e' {
        assert(s@ =~= true_word());
        Some(true)
    } else if len == 5 && s.get_char(0) == 'F' && s.get_char(1) == 'a' && s.get_char(2) == 'l'
        && s.get_char(3) == 's' && s.get_char(4) == 'e' {
        assert(s@ =~= false_word());
        Some(false)
    } else {
        proof {
            if s@ == true_word() {
                assert(s@[0] == 'T' && s@[1] == 'r' && s@[2] == 'u' && s@[3] == 'e');
            }
            if s@ == false_word() {
                assert(s@[0] == 'F' && s@[1] == 'a' && s@[2] == 'l' && s@[3] == 's');
                assert(s@[4] == 'e');
            }
        }
        None
    }
}

} // verus!
