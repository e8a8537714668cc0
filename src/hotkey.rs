//! Native hotkey registration: the combination a binding registers as, and
//! how the registered hotkey follows the configured binding.
use vstd::prelude::*;

verus! {

/// A hotkey as the operating system registers it: modifiers and one key.
#[derive(Clone, Copy, Debug, PartialEq, Eq, Structural)]
pub struct HotkeyCombo {
    pub meta: bool,
    pub ctrl: bool,
    pub alt: bool,
    pub shift: bool,
    /// The key identifier of the one non-modifier key.
    pub key: i32,
}

/// Keys that a native hotkey can have as its main key: letters, digits,
/// F1 to F12, and the navigation and editing keys (not modifiers, not
/// mouse buttons).
pub open spec fn has_hotkey_code(vk: i32) -> bool {
    ||| 0x41 <= vk <= 0x5A
    ||| 0x30 <= vk <= 0x39
    ||| 0x70 <= vk <= 0x7B
    ||| vk == 0x20 || vk == 0x0D || vk == 0x1B || vk == 0x09 || vk == 0x08
    ||| vk == 0x2E || vk == 0x2D || vk == 0x24 || vk == 0x23 || vk == 0x21 || vk == 0x22
    ||| vk == 0x26 || vk == 0x28 || vk == 0x25 || vk == 0x27
}

/// Whether `vk` can be the main key of a native hotkey.
pub fn vk_has_hotkey_code(vk: i32) -> (r: bool)
    ensures
        r == has_hotkey_code(vk),
{
    (0x41 <= vk && vk <= 0x5A) || (0x30 <= vk && vk <= 0x39) || (0x70 <= vk && vk <= 0x7B) || vk == 0x20
        || vk == 0x0D || vk == 0x1B || vk == 0x09 || vk == 0x08 || vk == 0x2E || vk == 0x2D || vk == 0x24
        || vk == 0x23 || vk == 0x21 || vk == 0x22 || vk == 0x26 || vk == 0x28 || vk == 0x25 || vk == 0x27
}

/// The last key of the binding that can be a hotkey's main key.
pub open spec fn last_code_key(keys: Seq<i32>) -> Option<i32>
    decreases keys.len(),
{
    if keys.len() == 0 {
        None
    } else if has_hotkey_code(keys.last()) {
        Some(keys.last())
    } else {
        last_code_key(keys.drop_last())
    }
}

/// The hotkey a binding registers as: its modifiers and its last key that
/// can be a main key; none when it has no such key.
pub open spec fn combo_of(keys: Seq<i32>) -> Option<HotkeyCombo> {
    match last_code_key(keys) {
        None => None,
        Some(k) => Some(
            HotkeyCombo {
                meta: keys.contains(0x5B),
                ctrl: keys.contains(0x11),
                alt: keys.contains(0x12),
                shift: keys.contains(0x10),
                key: k,
            },
        ),
    }
}

/// The hotkey that a binding registers as.
pub fn vk_codes_to_hotkey(vk_codes: &[i32]) -> (r: Option<HotkeyCombo>)
    ensures
        r == combo_of(vk_codes@),
{
    let mut meta = false;
    let mut ctrl = false;
    let mut alt = false;
    let mut shift = false;
    let mut key: Option<i32> = None;
    let mut i: usize = 0;
    assert(vk_codes@.subrange(0, 0) =~= Seq::<i32>::empty());
    while i < vk_codes.len()
        invariant
            i <= vk_codes@.len(),
            meta == vk_codes@.subrange(0, i as int).contains(0x5B),
            ctrl == vk_codes@.subrange(0, i as int).contains(0x11),
            alt == vk_codes@.subrange(0, i as int).contains(0x12),
            shift == vk_codes@.subrange(0, i as int).contains(0x10),
            key == last_code_key(vk_codes@.subrange(0, i as int)),
        decreases vk_codes.len() - i,
    {
        let vk = vk_codes[i];
        let ghost prev = vk_codes@.subrange(0, i as int);
        let ghost next = vk_codes@.subrange(0, i + 1);
        assert(next =~= prev.push(vk));
        assert(next.drop_last() =~= prev);
        assert(forall|x: i32| next.contains(x) <==> (prev.contains(x) || x == vk)) by {
            assert forall|x: i32| next.contains(x) implies (prev.contains(x) || x == vk) by {
                if next.contains(x) {
                    let j = choose|j: int| 0 <= j < next.len() && next[j] == x;
                    if j < prev.len() {
                        assert(prev[j] == x);
                    }
                }
            }
            assert forall|x: i32| prev.contains(x) implies next.contains(x) by {
                let j = choose|j: int| 0 <= j < prev.len() && prev[j] == x;
                assert(next[j] == x);
            }
            assert(next[next.len() - 1] == vk);
        }
        if vk == 0x5B {
            meta = true;
        } else if vk == 0x11 {
            ctrl = true;
        } else if vk == 0x12 {
            alt = true;
        } else if vk == 0x10 {
            shift = true;
        } else if vk_has_hotkey_code(vk) {
            key = Some(vk);
        }
        i += 1;
    }
    assert(vk_codes@.subrange(0, vk_codes@.len() as int) =~= vk_codes@);
    match key {
        Some(k) => Some(HotkeyCombo { meta, ctrl, alt, shift, key: k }),
        None => None,
    }
}

/// What to do with the operating system's registration of one hotkey.
#[derive(Clone, Copy, Debug, PartialEq, Eq, Structural)]
pub struct RegistrationPlan {
    pub unregister: Option<HotkeyCombo>,
    pub register: Option<HotkeyCombo>,
}

/// The changes that bring the registration in line with the configuration:
/// nothing when the configured hotkey is already registered; otherwise the
/// old one goes and the configured one, if any, comes.
pub open spec fn plan_spec(desired: Option<HotkeyCombo>, registered: Option<HotkeyCombo>) -> RegistrationPlan {
    if desired is Some && registered == desired {
        RegistrationPlan { unregister: None, register: None }
    } else {
        RegistrationPlan { unregister: registered, register: desired }
    }
}

/// Plans one reconciliation of a registered hotkey with the configured one.
pub fn plan_registration(desired: Option<HotkeyCombo>, registered: Option<HotkeyCombo>) -> (r: RegistrationPlan)
    ensures
        r == plan_spec(desired, registered),
{
    let same = match (desired, registered) {
        (Some(d), Some(g)) => d == g,
        _ => false,
    };
    if same {
        RegistrationPlan { unregister: None, register: None }
    } else {
        RegistrationPlan { unregister: registered, register: desired }
    }
}

/// What is registered after a plan was carried out: the new hotkey if its
/// registration succeeded, none if it failed or only an old one was removed.
pub open spec fn registered_after_spec(
    plan: RegistrationPlan,
    registered: Option<HotkeyCombo>,
    register_ok: bool,
) -> Option<HotkeyCombo> {
    if plan.register is Some {
        if register_ok {
            plan.register
        } else {
            None
        }
    } else if plan.unregister is Some {
        None
    } else {
        registered
    }
}

/// Updates the record of what is registered after a plan was carried out.
pub fn registered_after(plan: RegistrationPlan, registered: Option<HotkeyCombo>, register_ok: bool) -> (r: Option<
    HotkeyCombo,
>)
    ensures
        r == registered_after_spec(plan, registered, register_ok),
{
    match plan.register {
        Some(h) => if register_ok {
            Some(h)
        } else {
            None
        },
        None => match plan.unregister {
            Some(_) => None,
            None => registered,
        },
    }
}

/// A reconciliation whose registration succeeds leaves exactly the
/// configured hotkey registered.
pub proof fn lemma_reconcile_converges(desired: Option<HotkeyCombo>, registered: Option<HotkeyCombo>)
    ensures
        registered_after_spec(plan_spec(desired, registered), registered, true) == desired,
{
}

} // verus!
