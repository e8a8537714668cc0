//! Key-binding codec: between a `'+'`-separated binding string and the
//! ordered, duplicate-free list of canonical key identifiers it names.
use vstd::prelude::*;
use crate::decimal::{digit_char, int_text, nat_digits, push_int_text, push_nat_digits};
use crate::key_order::{
    canonical_order, canonical_order_of, in_table_order, is_table_ordered, lemma_canonical_order_ignores_order,
    lemma_key_at_rank, lemma_ordered_below_props, rank_of, lemma_ordered_below_stable, lemma_outside_table_empty,
    table_order_of, TABLE_SIZE,
};

verus! {

/// The key identifier that a normalized (trimmed, lower-case) key name
/// stands for, if the name is in the table.
pub open spec fn key_of_name(s: Seq<char>) -> Option<i32> {
    if s == "win"@ || s == "meta"@ || s == "super"@ {
        Some(0x5B)
    } else if s == "ctrl"@ || s == "control"@ {
        Some(0x11)
    } else if s == "alt"@ || s == "menu"@ {
        Some(0x12)
    } else if s == "shift"@ {
        Some(0x10)
    } else if s.len() == 1 && 'a' <= s[0] <= 'z' {
        Some((0x41 + (s[0] as int - 'a' as int)) as i32)
    } else if s.len() == 1 && '0' <= s[0] <= '9' {
        Some((0x30 + (s[0] as int - '0' as int)) as i32)
    } else if s.len() == 2 && s[0] == 'f' && '1' <= s[1] <= '9' {
        Some((0x70 + (s[1] as int - '1' as int)) as i32)
    } else if s.len() == 3 && s[0] == 'f' && s[1] == '1' && '0' <= s[2] <= '2' {
        Some((0x79 + (s[2] as int - '0' as int)) as i32)
    } else if s == "space"@ {
        Some(0x20)
    } else if s == "enter"@ || s == "return"@ {
        Some(0x0D)
    } else if s == "escape"@ || s == "esc"@ {
        Some(0x1B)
    } else if s == "tab"@ {
        Some(0x09)
    } else if s == "backspace"@ {
        Some(0x08)
    } else if s == "delete"@ || s == "del"@ {
        Some(0x2E)
    } else if s == "insert"@ || s == "ins"@ {
        Some(0x2D)
    } else if s == "home"@ {
        Some(0x24)
    } else if s == "end"@ {
        Some(0x23)
    } else if s == "pageup"@ {
        Some(0x21)
    } else if s == "pagedown"@ {
        Some(0x22)
    } else if s == "arrowup"@ || s == "up"@ {
        Some(0x26)
    } else if s == "arrowdown"@ || s == "down"@ {
        Some(0x28)
    } else if s == "arrowleft"@ || s == "left"@ {
        Some(0x25)
    } else if s == "arrowright"@ || s == "right"@ {
        Some(0x27)
    } else if s == "mousebutton1"@ || s == "lmb"@ || s == "leftclick"@ {
        Some(0x01)
    } else if s == "mousebutton2"@ || s == "rmb"@ || s == "rightclick"@ {
        Some(0x02)
    } else if s == "mousebutton3"@ || s == "mmb"@ || s == "middleclick"@ {
        Some(0x04)
    } else if s == "mousebutton4"@ || s == "mb4"@ {
        Some(0x05)
    } else if s == "mousebutton5"@ || s == "mb5"@ {
        Some(0x06)
    } else {
        None
    }
}

/// The canonical name of a key identifier; `key<n>` for one outside the table.
pub open spec fn name_of_key(vk: i32) -> Seq<char> {
    if vk == 0x5B {
        "win"@
    } else if vk == 0x11 {
        "ctrl"@
    } else if vk == 0x12 {
        "alt"@
    } else if vk == 0x10 {
        "shift"@
    } else if 0x41 <= vk <= 0x5A {
        seq![('a' as int + (vk - 0x41)) as char]
    } else if 0x30 <= vk <= 0x39 {
        seq![digit_char(vk - 0x30)]
    } else if 0x70 <= vk <= 0x7B {
        seq!['f'] + nat_digits((vk - 0x6F) as nat)
    } else if vk == 0x20 {
        "space"@
    } else if vk == 0x0D {
        "enter"@
    } else if vk == 0x1B {
        "escape"@
    } else if vk == 0x09 {
        "tab"@
    } else if vk == 0x08 {
        "backspace"@
    } else if vk == 0x2E {
        "delete"@
    } else if vk == 0x2D {
        "insert"@
    } else if vk == 0x24 {
        "home"@
    } else if vk == 0x23 {
        "end"@
    } else if vk == 0x21 {
        "pageup"@
    } else if vk == 0x22 {
        "pagedown"@
    } else if vk == 0x26 {
        "arrowup"@
    } else if vk == 0x28 {
        "arrowdown"@
    } else if vk == 0x25 {
        "arrowleft"@
    } else if vk == 0x27 {
        "arrowright"@
    } else if vk == 0x01 {
        "mousebutton1"@
    } else if vk == 0x02 {
        "mousebutton2"@
    } else if vk == 0x04 {
        "mousebutton3"@
    } else if vk == 0x05 {
        "mousebutton4"@
    } else if vk == 0x06 {
        "mousebutton5"@
    } else {
        "key"@ + int_text(vk as int)
    }
}

/// The identifiers that the table gives a name to.
pub open spec fn is_table_key(vk: i32) -> bool {
    ||| vk == 0x5B || vk == 0x11 || vk == 0x12 || vk == 0x10
    ||| 0x41 <= vk <= 0x5A
    ||| 0x30 <= vk <= 0x39
    ||| 0x70 <= vk <= 0x7B
    ||| vk == 0x20 || vk == 0x0D || vk == 0x1B || vk == 0x09 || vk == 0x08
    ||| vk == 0x2E || vk == 0x2D || vk == 0x24 || vk == 0x23 || vk == 0x21 || vk == 0x22
    ||| vk == 0x26 || vk == 0x28 || vk == 0x25 || vk == 0x27
    ||| vk == 0x01 || vk == 0x02 || vk == 0x04 || vk == 0x05 || vk == 0x06
}

/// A sequence of lower-case ASCII letters and digits.
pub open spec fn is_lower_alnum(s: Seq<char>) -> bool {
    forall|i: int| 0 <= i < s.len() ==> ('a' <= #[trigger] s[i] <= 'z' || '0' <= s[i] <= '9')
}

/// The canonical name of a table key is lower-case alphanumeric and names that key.
pub proof fn lemma_name_round_trip(vk: i32)
    requires
        is_table_key(vk),
    ensures
        is_lower_alnum(name_of_key(vk)),
        name_of_key(vk).len() > 0,
        key_of_name(name_of_key(vk)) == Some(vk),
{
    if 0x41 <= vk <= 0x5A || 0x30 <= vk <= 0x39 || 0x70 <= vk <= 0x7B {
        lemma_short_name_round_trip(vk);
    } else {
        lemma_word_name_round_trip(vk);
    }
}

proof fn lemma_short_name_round_trip(vk: i32)
    requires
        0x41 <= vk <= 0x5A || 0x30 <= vk <= 0x39 || 0x70 <= vk <= 0x7B,
    ensures
        is_lower_alnum(name_of_key(vk)),
        name_of_key(vk).len() > 0,
        key_of_name(name_of_key(vk)) == Some(vk),
{
    reveal_strlit("win");
    reveal_strlit("meta");
    reveal_strlit("super");
    reveal_strlit("ctrl");
    reveal_strlit("control");
    reveal_strlit("alt");
    reveal_strlit("menu");
    reveal_strlit("shift");
    reveal_strlit("space");
    reveal_strlit("enter");
    reveal_strlit("return");
    reveal_strlit("escape");
    reveal_strlit("esc");
    reveal_strlit("tab");
    reveal_strlit("backspace");
    reveal_strlit("delete");
    reveal_strlit("del");
    reveal_strlit("insert");
    reveal_strlit("ins");
    reveal_strlit("home");
    reveal_strlit("end");
    reveal_strlit("pageup");
    reveal_strlit("pagedown");
    reveal_strlit("arrowup");
    reveal_strlit("up");
    reveal_strlit("arrowdown");
    reveal_strlit("down");
    reveal_strlit("arrowleft");
    reveal_strlit("left");
    reveal_strlit("arrowright");
    reveal_strlit("right");
    reveal_strlit("mousebutton1");
    reveal_strlit("lmb");
    reveal_strlit("leftclick");
    reveal_strlit("mousebutton2");
    reveal_strlit("rmb");
    reveal_strlit("rightclick");
    reveal_strlit("mousebutton3");
    reveal_strlit("mmb");
    reveal_strlit("middleclick");
    reveal_strlit("mousebutton4");
    reveal_strlit("mb4");
    reveal_strlit("mousebutton5");
    reveal_strlit("mb5");
    if 0x70 <= vk <= 0x7B {
        let n = (vk - 0x6F) as nat;
        if n >= 10 {
            assert(nat_digits(1) == seq![digit_char(1)]);
            assert(nat_digits(n) == nat_digits(1).push(digit_char((n % 10) as int)));
            assert(name_of_key(vk) == seq!['f', '1', digit_char((n % 10) as int)]);
        } else {
            assert(name_of_key(vk) == seq!['f', digit_char(n as int)]);
        }
        assert(key_of_name(name_of_key(vk)) == Some(vk));
    } else if 0x41 <= vk <= 0x5A {
        let c = ('a' as int + (vk - 0x41)) as char;
        assert(c as int == 'a' as int + (vk - 0x41));
        assert(name_of_key(vk) == seq![c]);
        assert(key_of_name(name_of_key(vk)) == Some(vk));
    } else {
        let c = digit_char(vk - 0x30);
        assert(c as int == '0' as int + (vk - 0x30));
        assert(name_of_key(vk) == seq![c]);
        assert(key_of_name(name_of_key(vk)) == Some(vk));
    }
}

proof fn lemma_word_name_round_trip(vk: i32)
    requires
        is_table_key(vk),
        !(0x41 <= vk <= 0x5A || 0x30 <= vk <= 0x39 || 0x70 <= vk <= 0x7B),
    ensures
        is_lower_alnum(name_of_key(vk)),
        name_of_key(vk).len() > 0,
        key_of_name(name_of_key(vk)) == Some(vk),
{
    reveal_strlit("win");
    reveal_strlit("meta");
    reveal_strlit("super");
    reveal_strlit("ctrl");
    reveal_strlit("control");
    reveal_strlit("alt");
    reveal_strlit("menu");
    reveal_strlit("shift");
    reveal_strlit("space");
    reveal_strlit("enter");
    reveal_strlit("return");
    reveal_strlit("escape");
    reveal_strlit("esc");
    reveal_strlit("tab");
    reveal_strlit("backspace");
    reveal_strlit("delete");
    reveal_strlit("del");
    reveal_strlit("insert");
    reveal_strlit("ins");
    reveal_strlit("home");
    reveal_strlit("end");
    reveal_strlit("pageup");
    reveal_strlit("pagedown");
    reveal_strlit("arrowup");
    reveal_strlit("up");
    reveal_strlit("arrowdown");
    reveal_strlit("down");
    reveal_strlit("arrowleft");
    reveal_strlit("left");
    reveal_strlit("arrowright");
    reveal_strlit("right");
    reveal_strlit("mousebutton1");
    reveal_strlit("lmb");
    reveal_strlit("leftclick");
    reveal_strlit("mousebutton2");
    reveal_strlit("rmb");
    reveal_strlit("rightclick");
    reveal_strlit("mousebutton3");
    reveal_strlit("mmb");
    reveal_strlit("middleclick");
    reveal_strlit("mousebutton4");
    reveal_strlit("mb4");
    reveal_strlit("mousebutton5");
    reveal_strlit("mb5");
        if vk == 0x5B {
            assert("win"@.len() == 3);
            assert(key_of_name(name_of_key(vk)) == Some(vk));
        } else if vk == 0x11 {
            assert("ctrl"@.len() == 4);
            assert("ctrl"@[0] != "meta"@[0]);
            assert(key_of_name(name_of_key(vk)) == Some(vk));
        } else if vk == 0x12 {
            assert("alt"@.len() == 3);
            assert("alt"@[0] != "win"@[0]);
            assert(key_of_name(name_of_key(vk)) == Some(vk));
        } else if vk == 0x10 {
            assert("shift"@.len() == 5);
            assert("shift"@[1] != "super"@[1]);
            assert(key_of_name(name_of_key(vk)) == Some(vk));
        } else if vk == 0x20 {
            assert("space"@.len() == 5);
            assert("space"@[1] != "super"@[1]);
            assert("space"@[1] != "shift"@[1]);
            assert(key_of_name(name_of_key(vk)) == Some(vk));
        } else if vk == 0x0D {
            assert("enter"@.len() == 5);
            assert("enter"@[0] != "super"@[0]);
            assert("enter"@[0] != "shift"@[0]);
            assert("enter"@[0] != "space"@[0]);
            assert(key_of_name(name_of_key(vk)) == Some(vk));
        } else if vk == 0x1B {
            assert("escape"@.len() == 6);
            assert("escape"@[0] != "return"@[0]);
            assert(key_of_name(name_of_key(vk)) == Some(vk));
        } else if vk == 0x09 {
            assert("tab"@.len() == 3);
            assert("tab"@[0] != "win"@[0]);
            assert("tab"@[0] != "alt"@[0]);
            assert("tab"@[0] != "esc"@[0]);
            assert(key_of_name(name_of_key(vk)) == Some(vk));
        } else if vk == 0x08 {
            assert("backspace"@.len() == 9);
            assert(key_of_name(name_of_key(vk)) == Some(vk));
        } else if vk == 0x2E {
            assert("delete"@.len() == 6);
            assert("delete"@[0] != "return"@[0]);
            assert("delete"@[0] != "escape"@[0]);
            assert(key_of_name(name_of_key(vk)) == Some(vk));
        } else if vk == 0x2D {
            assert("insert"@.len() == 6);
            assert("insert"@[0] != "return"@[0]);
            assert("insert"@[0] != "escape"@[0]);
            assert("insert"@[0] != "delete"@[0]);
            assert(key_of_name(name_of_key(vk)) == Some(vk));
        } else if vk == 0x24 {
            assert("home"@.len() == 4);
            assert("home"@[0] != "meta"@[0]);
            assert("home"@[0] != "ctrl"@[0]);
            assert("home"@[0] != "menu"@[0]);
            assert(key_of_name(name_of_key(vk)) == Some(vk));
        } else if vk == 0x23 {
            assert("end"@.len() == 3);
            assert("end"@[0] != "win"@[0]);
            assert("end"@[0] != "alt"@[0]);
            assert("end"@[1] != "esc"@[1]);
            assert("end"@[0] != "tab"@[0]);
            assert("end"@[0] != "del"@[0]);
            assert("end"@[0] != "ins"@[0]);
            assert(key_of_name(name_of_key(vk)) == Some(vk));
        } else if vk == 0x21 {
            assert("pageup"@.len() == 6);
            assert("pageup"@[0] != "return"@[0]);
            assert("pageup"@[0] != "escape"@[0]);
            assert("pageup"@[0] != "delete"@[0]);
            assert("pageup"@[0] != "insert"@[0]);
            assert(key_of_name(name_of_key(vk)) == Some(vk));
        } else if vk == 0x22 {
            assert("pagedown"@.len() == 8);
            assert(key_of_name(name_of_key(vk)) == Some(vk));
        } else if vk == 0x26 {
            assert("arrowup"@.len() == 7);
            assert("arrowup"@[0] != "control"@[0]);
            assert(key_of_name(name_of_key(vk)) == Some(vk));
        } else if vk == 0x28 {
            assert("arrowdown"@.len() == 9);
            assert("arrowdown"@[0] != "backspace"@[0]);
            assert(key_of_name(name_of_key(vk)) == Some(vk));
        } else if vk == 0x25 {
            assert("arrowleft"@.len() == 9);
            assert("arrowleft"@[0] != "backspace"@[0]);
            assert("arrowleft"@[5] != "arrowdown"@[5]);
            assert(key_of_name(name_of_key(vk)) == Some(vk));
        } else if vk == 0x27 {
            assert("arrowright"@.len() == 10);
            assert(key_of_name(name_of_key(vk)) == Some(vk));
        } else if vk == 0x01 {
            assert("mousebutton1"@.len() == 12);
            assert(key_of_name(name_of_key(vk)) == Some(vk));
        } else if vk == 0x02 {
            assert("mousebutton2"@.len() == 12);
            assert("mousebutton2"@[11] != "mousebutton1"@[11]);
            assert(key_of_name(name_of_key(vk)) == Some(vk));
        } else if vk == 0x04 {
            assert("mousebutton3"@.len() == 12);
            assert("mousebutton3"@[11] != "mousebutton1"@[11]);
            assert("mousebutton3"@[11] != "mousebutton2"@[11]);
            assert(key_of_name(name_of_key(vk)) == Some(vk));
        } else if vk == 0x05 {
            assert("mousebutton4"@.len() == 12);
            assert("mousebutton4"@[11] != "mousebutton1"@[11]);
            assert("mousebutton4"@[11] != "mousebutton2"@[11]);
            assert("mousebutton4"@[11] != "mousebutton3"@[11]);
            assert(key_of_name(name_of_key(vk)) == Some(vk));
        } else if vk == 0x06 {
            assert("mousebutton5"@.len() == 12);
            assert("mousebutton5"@[11] != "mousebutton1"@[11]);
            assert("mousebutton5"@[11] != "mousebutton2"@[11]);
            assert("mousebutton5"@[11] != "mousebutton3"@[11]);
            assert("mousebutton5"@[11] != "mousebutton4"@[11]);
            assert(key_of_name(name_of_key(vk)) == Some(vk));
        }
}

/// Whether two texts are equal, character by character.
fn same_text(a: &[char], b: &str) -> (r: bool)
    ensures
        r == (a@ == b@),
{
    let n = a.len();
    if n != b.unicode_len() {
        return false;
    }
    let mut i: usize = 0;
    while i < n
        invariant
            n == a@.len() == b@.len(),
            i <= n,
            a@.subrange(0, i as int) == b@.subrange(0, i as int),
        decreases n - i,
    {
        if a[i] != b.get_char(i) {
            return false;
        }
        assert(a@.subrange(0, i + 1) =~= a@.subrange(0, i as int).push(a@[i as int]));
        assert(b@.subrange(0, i + 1) =~= b@.subrange(0, i as int).push(b@[i as int]));
        i += 1;
    }
    assert(a@ =~= a@.subrange(0, n as int));
    assert(b@ =~= b@.subrange(0, n as int));
    true
}

/// Looks up a key name that is already trimmed and lower-case.
pub fn vk_for_key_name(name: &[char]) -> (r: Option<i32>)
    ensures
        r == key_of_name(name@),
{
    let len = name.len();
    if same_text(name, "win") || same_text(name, "meta") || same_text(name, "super") {
        Some(0x5B)
    } else if same_text(name, "ctrl") || same_text(name, "control") {
        Some(0x11)
    } else if same_text(name, "alt") || same_text(name, "menu") {
        Some(0x12)
    } else if same_text(name, "shift") {
        Some(0x10)
    } else if len == 1 && 'a' <= name[0] && name[0] <= 'z' {
        Some(0x41 + (name[0] as u32 - 'a' as u32) as i32)
    } else if len == 1 && '0' <= name[0] && name[0] <= '9' {
        Some(0x30 + (name[0] as u32 - '0' as u32) as i32)
    } else if len == 2 && name[0] == 'f' && '1' <= name[1] && name[1] <= '9' {
        Some(0x70 + (name[1] as u32 - '1' as u32) as i32)
    } else if len == 3 && name[0] == 'f' && name[1] == '1' && '0' <= name[2]
        && name[2] <= '2' {
        Some(0x79 + (name[2] as u32 - '0' as u32) as i32)
    } else if same_text(name, "space") {
        Some(0x20)
    } else if same_text(name, "enter") || same_text(name, "return") {
        Some(0x0D)
    } else if same_text(name, "escape") || same_text(name, "esc") {
        Some(0x1B)
    } else if same_text(name, "tab") {
        Some(0x09)
    } else if same_text(name, "backspace") {
        Some(0x08)
    } else if same_text(name, "delete") || same_text(name, "del") {
        Some(0x2E)
    } else if same_text(name, "insert") || same_text(name, "ins") {
        Some(0x2D)
    } else if same_text(name, "home") {
        Some(0x24)
    } else if same_text(name, "end") {
        Some(0x23)
    } else if same_text(name, "pageup") {
        Some(0x21)
    } else if same_text(name, "pagedown") {
        Some(0x22)
    } else if same_text(name, "arrowup") || same_text(name, "up") {
        Some(0x26)
    } else if same_text(name, "arrowdown") || same_text(name, "down") {
        Some(0x28)
    } else if same_text(name, "arrowleft") || same_text(name, "left") {
        Some(0x25)
    } else if same_text(name, "arrowright") || same_text(name, "right") {
        Some(0x27)
    } else if same_text(name, "mousebutton1") || same_text(name, "lmb") || same_text(name, "leftclick") {
        Some(0x01)
    } else if same_text(name, "mousebutton2") || same_text(name, "rmb") || same_text(name, "rightclick") {
        Some(0x02)
    } else if same_text(name, "mousebutton3") || same_text(name, "mmb") || same_text(name, "middleclick") {
        Some(0x04)
    } else if same_text(name, "mousebutton4") || same_text(name, "mb4") {
        Some(0x05)
    } else if same_text(name, "mousebutton5") || same_text(name, "mb5") {
        Some(0x06)
    } else {
        None
    }
}

/// Renders a key identifier as its canonical name (`key<n>` outside the table).
pub fn vk_to_key_name(vk: i32) -> (r: String)
    ensures
        r@ == name_of_key(vk),
{
    if vk == 0x5B {
        String::from_str("win")
    } else if vk == 0x11 {
        String::from_str("ctrl")
    } else if vk == 0x12 {
        String::from_str("alt")
    } else if vk == 0x10 {
        String::from_str("shift")
    } else if 0x41 <= vk && vk <= 0x5A {
        let letters = "abcdefghijklmnopqrstuvwxyz";
        proof {
            reveal_strlit("abcdefghijklmnopqrstuvwxyz");
        }
        let i = (vk - 0x41) as usize;
        let r = String::from_str(letters.substring_char(i, i + 1));
        assert(r@ =~= name_of_key(vk));
        r
    } else if 0x30 <= vk && vk <= 0x39 {
        let digits = "0123456789";
        proof {
            reveal_strlit("0123456789");
        }
        let i = (vk - 0x30) as usize;
        let r = String::from_str(digits.substring_char(i, i + 1));
        assert(r@ =~= name_of_key(vk));
        r
    } else if 0x70 <= vk && vk <= 0x7B {
        let mut r = String::from_str("f");
        proof {
            reveal_strlit("f");
        }
        push_nat_digits(&mut r, (vk - 0x6F) as u64);
        assert(r@ =~= name_of_key(vk));
        r
    } else if vk == 0x20 {
        String::from_str("space")
    } else if vk == 0x0D {
        String::from_str("enter")
    } else if vk == 0x1B {
        String::from_str("escape")
    } else if vk == 0x09 {
        String::from_str("tab")
    } else if vk == 0x08 {
        String::from_str("backspace")
    } else if vk == 0x2E {
        String::from_str("delete")
    } else if vk == 0x2D {
        String::from_str("insert")
    } else if vk == 0x24 {
        String::from_str("home")
    } else if vk == 0x23 {
        String::from_str("end")
    } else if vk == 0x21 {
        String::from_str("pageup")
    } else if vk == 0x22 {
        String::from_str("pagedown")
    } else if vk == 0x26 {
        String::from_str("arrowup")
    } else if vk == 0x28 {
        String::from_str("arrowdown")
    } else if vk == 0x25 {
        String::from_str("arrowleft")
    } else if vk == 0x27 {
        String::from_str("arrowright")
    } else if vk == 0x01 {
        String::from_str("mousebutton1")
    } else if vk == 0x02 {
        String::from_str("mousebutton2")
    } else if vk == 0x04 {
        String::from_str("mousebutton3")
    } else if vk == 0x05 {
        String::from_str("mousebutton4")
    } else if vk == 0x06 {
        String::from_str("mousebutton5")
    } else {
        let mut r = String::from_str("key");
        push_int_text(&mut r, vk as i64);
        r
    }
}

/// The characters with the Unicode `White_Space` property, which
/// `char::is_whitespace` tests and `str::trim` strips.
pub open spec fn is_white_space(c: char) -> bool {
    ||| '\u{09}' <= c <= '\u{0D}'
    ||| c == ' ' || c == '\u{85}' || c == '\u{A0}' || c == '\u{1680}'
    ||| '\u{2000}' <= c <= '\u{200A}'
    ||| c == '\u{2028}' || c == '\u{2029}' || c == '\u{202F}' || c == '\u{205F}' || c == '\u{3000}'
}

/// `s` without its leading white space.
pub open spec fn trim_start_seq(s: Seq<char>) -> Seq<char>
    decreases s.len(),
{
    if s.len() > 0 && is_white_space(s[0]) {
        trim_start_seq(s.drop_first())
    } else {
        s
    }
}

/// `s` without its trailing white space.
pub open spec fn trim_end_seq(s: Seq<char>) -> Seq<char>
    decreases s.len(),
{
    if s.len() > 0 && is_white_space(s.last()) {
        trim_end_seq(s.drop_last())
    } else {
        s
    }
}

/// Lower-case form of a character, as far as it matters for the name table:
/// every table name is ASCII, and the only characters whose lower case is an
/// ASCII letter are `A`..`Z` and U+212A KELVIN SIGN (which lowers to `k`).
pub open spec fn fold_char(c: char) -> char {
    if 'A' <= c <= 'Z' {
        ((c as int) + 32) as char
    } else if c == '\u{212A}' {
        'k'
    } else {
        c
    }
}

/// A token as the table is searched with: trimmed, then lower-cased.
pub open spec fn normalize_name(s: Seq<char>) -> Seq<char> {
    trim_end_seq(trim_start_seq(s)).map_values(|c: char| fold_char(c))
}

/// The key that one token of a binding string names.
pub open spec fn token_key(t: Seq<char>) -> Option<i32> {
    key_of_name(normalize_name(t))
}

fn is_white_space_char(c: char) -> (r: bool)
    ensures
        r == is_white_space(c),
{
    ('\u{09}' <= c && c <= '\u{0D}') || c == ' ' || c == '\u{85}' || c == '\u{A0}' || c == '\u{1680}'
        || ('\u{2000}' <= c && c <= '\u{200A}') || c == '\u{2028}' || c == '\u{2029}' || c == '\u{202F}'
        || c == '\u{205F}' || c == '\u{3000}'
}

fn lower_char(c: char) -> (r: char)
    ensures
        r == fold_char(c),
{
    if 'A' <= c && c <= 'Z' {
        ((c as u32 + 32) as u8) as char
    } else if c == '\u{212A}' {
        'k'
    } else {
        c
    }
}

proof fn lemma_trim_start_skip(s: Seq<char>, i: int)
    requires
        0 <= i < s.len(),
        is_white_space(s[i]),
    ensures
        trim_start_seq(s.subrange(i, s.len() as int)) == trim_start_seq(s.subrange(i + 1, s.len() as int)),
{
    assert(s.subrange(i, s.len() as int).drop_first() =~= s.subrange(i + 1, s.len() as int));
}

proof fn lemma_trim_end_skip(s: Seq<char>, i: int, j: int)
    requires
        0 <= i < j <= s.len(),
        is_white_space(s[j - 1]),
    ensures
        trim_end_seq(s.subrange(i, j)) == trim_end_seq(s.subrange(i, j - 1)),
{
    assert(s.subrange(i, j).drop_last() =~= s.subrange(i, j - 1));
}

/// Trims and lower-cases a key name, as the table is searched with it.
pub fn normalize_key_name(name: &str) -> (r: Vec<char>)
    ensures
        r@ == normalize_name(name@),
{
    let n = name.unicode_len();
    let mut i: usize = 0;
    assert(name@.subrange(0, n as int) =~= name@);
    while i < n && is_white_space_char(name.get_char(i))
        invariant
            n == name@.len(),
            i <= n,
            trim_start_seq(name@) == trim_start_seq(name@.subrange(i as int, n as int)),
        decreases n - i,
    {
        proof {
            lemma_trim_start_skip(name@, i as int);
        }
        i += 1;
    }
    proof {
        let rest = name@.subrange(i as int, n as int);
        assert(trim_start_seq(rest) == rest);
    }
    let mut j: usize = n;
    while j > i && is_white_space_char(name.get_char(j - 1))
        invariant
            n == name@.len(),
            i <= j <= n,
            trim_end_seq(trim_start_seq(name@)) == trim_end_seq(name@.subrange(i as int, j as int)),
        decreases j,
    {
        proof {
            lemma_trim_end_skip(name@, i as int, j as int);
        }
        j -= 1;
    }
    let ghost core = name@.subrange(i as int, j as int);
    assert(trim_end_seq(core) == core);
    let mut r: Vec<char> = Vec::new();
    let mut k: usize = i;
    while k < j
        invariant
            n == name@.len(),
            i <= k <= j <= n,
            core == name@.subrange(i as int, j as int),
            r@ == core.subrange(0, k - i).map_values(|c: char| fold_char(c)),
        decreases j - k,
    {
        let c = name.get_char(k);
        r.push(lower_char(c));
        assert(core.subrange(0, k + 1 - i) =~= core.subrange(0, k - i).push(c));
        assert(r@ =~= core.subrange(0, k + 1 - i).map_values(|c: char| fold_char(c)));
        k += 1;
    }
    assert(core.subrange(0, j - i) =~= core);
    r
}

/// Looks up one token of a binding string (white space around it and the
/// letter case do not matter).
pub fn key_name_to_vk(name: &str) -> (r: Option<i32>)
    ensures
        r == token_key(name@),
{
    let normalized = normalize_key_name(name);
    vk_for_key_name(normalized.as_slice())
}

/// The pieces of `s` between `'+'` separators, as `str::split('+')` yields
/// them (an empty text gives one empty piece).
pub open spec fn split_plus(s: Seq<char>) -> Seq<Seq<char>>
    decreases s.len(),
{
    if s.len() == 0 {
        seq![Seq::empty()]
    } else {
        let prev = split_plus(s.drop_last());
        if s.last() == '+' {
            prev.push(Seq::empty())
        } else {
            prev.update(prev.len() - 1, prev.last().push(s.last()))
        }
    }
}

/// The keys that a list of tokens names, in order of first appearance,
/// unknown tokens dropped and repeats removed (the binding is then put in
/// table order).
pub open spec fn collect_keys(tokens: Seq<Seq<char>>) -> Seq<i32>
    decreases tokens.len(),
{
    if tokens.len() == 0 {
        Seq::empty()
    } else {
        let prev = collect_keys(tokens.drop_last());
        match token_key(tokens.last()) {
            Some(vk) => if prev.contains(vk) {
                prev
            } else {
                prev.push(vk)
            },
            None => prev,
        }
    }
}

/// The binding that a binding string describes: the keys it names, each
/// once, in table order.
pub open spec fn parse_binding(s: Seq<char>) -> Seq<i32> {
    in_table_order(collect_keys(split_plus(s)))
}

/// Names joined with `'+'` between them.
pub open spec fn join_plus(names: Seq<Seq<char>>) -> Seq<char>
    decreases names.len(),
{
    if names.len() == 0 {
        Seq::empty()
    } else if names.len() == 1 {
        names[0]
    } else {
        join_plus(names.drop_last()) + seq!['+'] + names.last()
    }
}

/// The names of the keys, in the list's order, joined with `'+'`.
pub open spec fn names_joined(keys: Seq<i32>) -> Seq<char> {
    join_plus(keys.map_values(|vk: i32| name_of_key(vk)))
}

/// The binding string of a list of keys: the canonical names of its table
/// keys in table order, each once, then those of any keys outside the
/// table as given, joined with `'+'`.
pub open spec fn format_keys(keys: Seq<i32>) -> Seq<char> {
    names_joined(canonical_order(keys))
}

fn contains_key(keys: &Vec<i32>, vk: i32) -> (r: bool)
    ensures
        r == keys@.contains(vk),
{
    let mut i: usize = 0;
    while i < keys.len()
        invariant
            i <= keys@.len(),
            forall|j: int| 0 <= j < i ==> keys@[j] != vk,
        decreases keys.len() - i,
    {
        if keys[i] == vk {
            return true;
        }
        i += 1;
    }
    false
}

fn add_token_key(keys: &mut Vec<i32>, token: &str)
    ensures
        final(keys)@ == match token_key(token@) {
            Some(vk) => if old(keys)@.contains(vk) {
                old(keys)@
            } else {
                old(keys)@.push(vk)
            },
            None => old(keys)@,
        },
{
    if let Some(vk) = key_name_to_vk(token) {
        if !contains_key(keys, vk) {
            keys.push(vk);
        }
    }
}

/// Parses a binding string: `'+'`-separated key names, white space around a
/// name and letter case ignored. Unknown names are dropped, each key is
/// kept once, and the keys come in table order whatever order they were
/// written in. An empty result means the binding is disabled.
pub fn parse_binding_keys(binding: &str) -> (r: Vec<i32>)
    ensures
        r@ == parse_binding(binding@),
{
    let n = binding.unicode_len();
    let mut keys: Vec<i32> = Vec::new();
    let mut start: usize = 0;
    let mut i: usize = 0;
    assert(binding@.subrange(0, 0) =~= Seq::<char>::empty());
    while i < n
        invariant
            n == binding@.len(),
            start <= i <= n,
            split_plus(binding@.subrange(0, i as int)).len() >= 1,
            split_plus(binding@.subrange(0, i as int)).last() == binding@.subrange(start as int, i as int),
            keys@ == collect_keys(split_plus(binding@.subrange(0, i as int)).drop_last()),
        decreases n - i,
    {
        let ghost prefix = binding@.subrange(0, i + 1);
        assert(prefix.drop_last() =~= binding@.subrange(0, i as int));
        let ghost toks = split_plus(binding@.subrange(0, i as int));
        if binding.get_char(i) == '+' {
            let token = binding.substring_char(start, i);
            add_token_key(&mut keys, token);
            assert(split_plus(prefix).drop_last() =~= toks);
            assert(toks.drop_last() =~= toks.drop_last());
            start = i + 1;
            assert(binding@.subrange(start as int, i + 1) =~= Seq::<char>::empty());
        } else {
            assert(split_plus(prefix).drop_last() =~= toks.drop_last());
            assert(binding@.subrange(start as int, i + 1) =~= binding@.subrange(start as int, i as int).push(binding@[i as int]));
        }
        i += 1;
    }
    let ghost toks = split_plus(binding@.subrange(0, n as int));
    let token = binding.substring_char(start, n);
    add_token_key(&mut keys, token);
    assert(binding@.subrange(0, n as int) =~= binding@);
    assert(toks.drop_last().push(toks.last()) =~= toks);
    table_order_of(keys.as_slice())
}

/// Renders keys as a binding string: canonical names joined with `'+'`, the
/// table keys in table order and each once, whatever order they are given
/// in, then any keys outside the table as given.
pub fn keys_to_string(keys: &[i32]) -> (r: String)
    ensures
        r@ == format_keys(keys@),
{
    let ordered = canonical_order_of(keys);
    let keys = ordered.as_slice();
    let mut r = String::new();
    let mut i: usize = 0;
    assert(keys@.subrange(0, 0).map_values(|vk: i32| name_of_key(vk)) =~= Seq::<Seq<char>>::empty());
    while i < keys.len()
        invariant
            i <= keys@.len(),
            r@ == names_joined(keys@.subrange(0, i as int)),
        decreases keys.len() - i,
    {
        let ghost before = keys@.subrange(0, i as int).map_values(|vk: i32| name_of_key(vk));
        let ghost after = keys@.subrange(0, i + 1).map_values(|vk: i32| name_of_key(vk));
        assert(after.drop_last() =~= before);
        assert(after.last() == name_of_key(keys@[i as int]));
        let ghost r0 = r@;
        if i > 0 {
            r.append("+");
            proof {
                reveal_strlit("+");
            }
            assert(r@ =~= r0 + seq!['+']);
        }
        let name = vk_to_key_name(keys[i]);
        r.append(name.as_str());
        if i > 0 {
            assert(join_plus(after) == join_plus(before) + seq!['+'] + after.last());
            assert(r@ =~= r0 + seq!['+'] + after.last());
        } else {
            assert(r@ =~= after[0]);
        }
        i += 1;
    }
    assert(keys@.subrange(0, keys@.len() as int) =~= keys@);
    r
}

/// A text without a `'+'` in it.
pub open spec fn has_no_plus(s: Seq<char>) -> bool {
    forall|i: int| 0 <= i < s.len() ==> #[trigger] s[i] != '+'
}

/// Every key is in the table and none appears twice.
pub open spec fn is_canonical_binding(keys: Seq<i32>) -> bool {
    &&& forall|i: int| 0 <= i < keys.len() ==> is_table_key(#[trigger] keys[i])
    &&& forall|i: int, j: int| 0 <= i < j < keys.len() ==> keys[i] != keys[j]
}

proof fn lemma_collect_keys_canonical(tokens: Seq<Seq<char>>)
    ensures
        is_canonical_binding(collect_keys(tokens)),
    decreases tokens.len(),
{
    if tokens.len() > 0 {
        lemma_collect_keys_canonical(tokens.drop_last());
        let prev = collect_keys(tokens.drop_last());
        if let Some(vk) = token_key(tokens.last()) {
            if !prev.contains(vk) {
                let next = prev.push(vk);
                assert forall|i: int, j: int| 0 <= i < j < next.len() implies next[i] != next[j] by {
                    if j == prev.len() {
                        assert(prev[i] == next[i]);
                    }
                }
            }
        }
    }
}

proof fn lemma_normalize_canonical_name(n: Seq<char>)
    requires
        is_lower_alnum(n),
        n.len() > 0,
    ensures
        normalize_name(n) == n,
{
    assert(!is_white_space(n[0]));
    assert(trim_start_seq(n) == n);
    assert(!is_white_space(n.last()));
    assert(trim_end_seq(n) == n);
    assert(n.map_values(|c: char| fold_char(c)) =~= n);
}

proof fn lemma_split_without_plus(y: Seq<char>)
    requires
        has_no_plus(y),
    ensures
        split_plus(y) == seq![y],
    decreases y.len(),
{
    if y.len() > 0 {
        lemma_split_without_plus(y.drop_last());
        assert(y.drop_last().push(y.last()) =~= y);
        assert(seq![y.drop_last()].update(0, y.drop_last().push(y.last())) =~= seq![y]);
    } else {
        assert(y =~= Seq::<char>::empty());
    }
}

proof fn lemma_split_after_plus(x: Seq<char>, y: Seq<char>)
    requires
        has_no_plus(y),
    ensures
        split_plus(x + seq!['+'] + y) == split_plus(x).push(y),
    decreases y.len(),
{
    let z = x + seq!['+'] + y;
    if y.len() == 0 {
        assert(z.drop_last() =~= x);
        assert(y =~= Seq::<char>::empty());
    } else {
        lemma_split_after_plus(x, y.drop_last());
        assert(z.drop_last() =~= x + seq!['+'] + y.drop_last());
        assert(y.drop_last().push(y.last()) =~= y);
        let prev = split_plus(x).push(y.drop_last());
        assert(prev.update(prev.len() - 1, prev.last().push(z.last())) =~= split_plus(x).push(y));
    }
}

proof fn lemma_split_join(names: Seq<Seq<char>>)
    requires
        names.len() >= 1,
        forall|i: int| 0 <= i < names.len() ==> has_no_plus(#[trigger] names[i]),
    ensures
        split_plus(join_plus(names)) == names,
    decreases names.len(),
{
    if names.len() == 1 {
        lemma_split_without_plus(names[0]);
        assert(seq![names[0]] =~= names);
    } else {
        lemma_split_join(names.drop_last());
        lemma_split_after_plus(join_plus(names.drop_last()), names.last());
        assert(names.drop_last().push(names.last()) =~= names);
    }
}

proof fn lemma_collect_canonical_names(keys: Seq<i32>)
    requires
        is_canonical_binding(keys),
    ensures
        collect_keys(keys.map_values(|vk: i32| name_of_key(vk))) == keys,
    decreases keys.len(),
{
    let names = keys.map_values(|vk: i32| name_of_key(vk));
    if keys.len() == 0 {
        assert(names.len() == 0);
    } else {
        let rest = keys.drop_last();
        assert(is_canonical_binding(rest));
        lemma_collect_canonical_names(rest);
        assert(names.drop_last() =~= rest.map_values(|vk: i32| name_of_key(vk)));
        let last = keys.last();
        lemma_name_round_trip(last);
        lemma_normalize_canonical_name(name_of_key(last));
        assert(token_key(names.last()) == Some(last));
        assert(!rest.contains(last));
        assert(rest.push(last) =~= keys);
    }
}

proof fn lemma_empty_token_names_nothing()
    ensures
        token_key(Seq::empty()) is None,
{
    let e = Seq::<char>::empty();
    assert(trim_start_seq(e) == e);
    assert(trim_end_seq(e) == e);
    assert(e.map_values(|c: char| fold_char(c)) =~= e);
    reveal_strlit("win");
    reveal_strlit("meta");
    reveal_strlit("super");
    reveal_strlit("ctrl");
    reveal_strlit("control");
    reveal_strlit("alt");
    reveal_strlit("menu");
    reveal_strlit("shift");
    reveal_strlit("space");
    reveal_strlit("enter");
    reveal_strlit("return");
    reveal_strlit("escape");
    reveal_strlit("esc");
    reveal_strlit("tab");
    reveal_strlit("backspace");
    reveal_strlit("delete");
    reveal_strlit("del");
    reveal_strlit("insert");
    reveal_strlit("ins");
    reveal_strlit("home");
    reveal_strlit("end");
    reveal_strlit("pageup");
    reveal_strlit("pagedown");
    reveal_strlit("arrowup");
    reveal_strlit("up");
    reveal_strlit("arrowdown");
    reveal_strlit("down");
    reveal_strlit("arrowleft");
    reveal_strlit("left");
    reveal_strlit("arrowright");
    reveal_strlit("right");
    reveal_strlit("mousebutton1");
    reveal_strlit("lmb");
    reveal_strlit("leftclick");
    reveal_strlit("mousebutton2");
    reveal_strlit("rmb");
    reveal_strlit("rightclick");
    reveal_strlit("mousebutton3");
    reveal_strlit("mmb");
    reveal_strlit("middleclick");
    reveal_strlit("mousebutton4");
    reveal_strlit("mb4");
    reveal_strlit("mousebutton5");
    reveal_strlit("mb5");
}

/// Keys in table order are table keys, each once.
proof fn lemma_table_ordered_canonical(k: Seq<i32>)
    requires
        is_table_ordered(k, TABLE_SIZE as int),
    ensures
        is_canonical_binding(k),
{
    assert forall|i: int| 0 <= i < k.len() implies is_table_key(#[trigger] k[i]) by {
        lemma_key_at_rank(rank_of(k[i]));
    }
}

/// Formatting a parsed binding and parsing the result gives the same keys
/// back, in the same order: the canonical string of a binding is stable.
pub proof fn lemma_parse_format_stable(s: Seq<char>)
    ensures
        parse_binding(format_keys(parse_binding(s))) == parse_binding(s),
{
    let collected = collect_keys(split_plus(s));
    let keys = parse_binding(s);
    lemma_ordered_below_props(collected, TABLE_SIZE as int);
    lemma_table_ordered_canonical(keys);
    lemma_ordered_below_stable(keys, TABLE_SIZE as int);
    lemma_outside_table_empty(keys);
    assert(canonical_order(keys) =~= keys);
    let names = keys.map_values(|vk: i32| name_of_key(vk));
    if keys.len() == 0 {
        assert(names.len() == 0);
        assert(format_keys(keys) == Seq::<char>::empty());
        lemma_empty_token_names_nothing();
        let toks = split_plus(Seq::<char>::empty());
        assert(toks.drop_last() =~= Seq::<Seq<char>>::empty());
        assert(collect_keys(toks.drop_last()) == Seq::<i32>::empty());
        assert(collect_keys(toks) == Seq::<i32>::empty());
        assert(keys =~= Seq::<i32>::empty());
        lemma_ordered_below_stable(Seq::<i32>::empty(), TABLE_SIZE as int);
    } else {
        assert forall|i: int| 0 <= i < names.len() implies has_no_plus(#[trigger] names[i]) by {
            lemma_name_round_trip(keys[i]);
            let n = names[i];
            assert forall|j: int| 0 <= j < n.len() implies #[trigger] n[j] != '+' by {
                assert('a' <= n[j] <= 'z' || '0' <= n[j] <= '9');
            }
        }
        lemma_split_join(names);
        lemma_collect_canonical_names(keys);
    }
}

/// Two lists of table keys that hold the same keys, in whatever order (and
/// however often), render as the same binding string.
pub proof fn lemma_format_ignores_order(k1: Seq<i32>, k2: Seq<i32>)
    requires
        forall|i: int| 0 <= i < k1.len() ==> is_table_key(#[trigger] k1[i]),
        forall|i: int| 0 <= i < k2.len() ==> is_table_key(#[trigger] k2[i]),
        forall|x: i32| k1.contains(x) <==> k2.contains(x),
    ensures
        format_keys(k1) == format_keys(k2),
{
    lemma_canonical_order_ignores_order(k1, k2);
}

} // verus!
