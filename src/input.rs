use vstd::prelude::*;

verus! {

/// Number of keys on the hexadecimal keypad.
pub const KEY_COUNT: usize = 16;

/// Which of the sixteen keypad keys are currently held.
pub struct Input {
    pub keys: [bool; 16],
}

/// Keypad key for a host keycode (SDL keycode values, which for these keys
/// are the lowercase ASCII codes), laid out as the conventional 4x4 pad:
///
/// ```text
/// 1 2 3 4      1 2 3 C
/// q w e r  ->  4 5 6 D
/// a s d f      7 8 9 E
/// z x c v      A 0 B F
/// ```
pub open spec fn keypad_key(code: i32) -> Option<usize> {
    if code == 49 { Some(0x1usize) }
    else if code == 50 { Some(0x2usize) }
    else if code == 51 { Some(0x3usize) }
    else if code == 52 { Some(0xCusize) }
    else if code == 113 { Some(0x4usize) }
    else if code == 119 { Some(0x5usize) }
    else if code == 101 { Some(0x6usize) }
    else if code == 114 { Some(0xDusize) }
    else if code == 97 { Some(0x7usize) }
    else if code == 115 { Some(0x8usize) }
    else if code == 100 { Some(0x9usize) }
    else if code == 102 { Some(0xEusize) }
    else if code == 122 { Some(0xAusize) }
    else if code == 120 { Some(0x0usize) }
    else if code == 99 { Some(0xBusize) }
    else if code == 118 { Some(0xFusize) }
    else { None }
}

/// The key state after a host key event: a mapped key takes `state`, any
/// other event leaves the keys as they were.
pub open spec fn keys_after(keys: Seq<bool>, key: Option<i32>, state: bool) -> Seq<bool> {
    match key {
        Some(code) => match keypad_key(code) {
            Some(k) => keys.update(k as int, state),
            None => keys,
        },
        None => keys,
    }
}

/// Whether keypad key `k` is held; an index past the pad is never held.
pub open spec fn key_held(keys: Seq<bool>, k: int) -> bool {
    0 <= k < KEY_COUNT && keys[k]
}

/// The lowest held key, if any key is held.
pub open spec fn lowest_held(keys: Seq<bool>) -> Option<u8> {
    if exists|k: int| 0 <= k < KEY_COUNT && #[trigger] keys[k] {
        Some(choose|k: u8| k < KEY_COUNT && keys[k as int]
            && forall|j: int| 0 <= j < k ==> !#[trigger] keys[j])
    } else {
        None
    }
}

/// Maps a host keycode to its keypad key.
pub fn keypad_index(code: i32) -> (r: Option<usize>)
    ensures
        r == keypad_key(code),
{
    match code {
        49 => Some(0x1),
        50 => Some(0x2),
        51 => Some(0x3),
        52 => Some(0xC),
        113 => Some(0x4),
        119 => Some(0x5),
        101 => Some(0x6),
        114 => Some(0xD),
        97 => Some(0x7),
        115 => Some(0x8),
        100 => Some(0x9),
        102 => Some(0xE),
        122 => Some(0xA),
        120 => Some(0x0),
        99 => Some(0xB),
        118 => Some(0xF),
        _ => None,
    }
}

impl Input {
    /// A keypad with no key held.
    pub fn new() -> (r: Input)
        ensures
            forall|k: int| 0 <= k < KEY_COUNT ==> !#[trigger] r.keys@[k],
    {
        Input { keys: [false; 16] }
    }

    /// Whether key `index` is held.
    pub fn pressed(&mut self, index: usize) -> (r: bool)
        requires
            index < KEY_COUNT,
        ensures
            r == old(self).keys@[index as int],
            *final(self) == *old(self),
    {
        self.keys[index]
    }

    /// Sets key `index` to held (`true`) or released (`false`).
    pub fn set_key(&mut self, index: usize, state: bool)
        requires
            index < KEY_COUNT,
        ensures
            final(self).keys@ == old(self).keys@.update(index as int, state),
    {
        self.keys[index] = state;
    }

    /// Records that the host key `key` went down.
    pub fn press(&mut self, key: Option<i32>)
        ensures
            final(self).keys@ == keys_after(old(self).keys@, key, true),
    {
        if let Some(code) = key {
            if let Some(k) = keypad_index(code) {
                self.set_key(k, true);
            }
        }
    }

    /// Records that the host key `key` went up.
    pub fn release(&mut self, key: Option<i32>)
        ensures
            final(self).keys@ == keys_after(old(self).keys@, key, false),
    {
        if let Some(code) = key {
            if let Some(k) = keypad_index(code) {
                self.set_key(k, false);
            }
        }
    }

    /// The lowest held key, or `None` when no key is held.
    pub fn first_pressed(&self) -> (r: Option<u8>)
        ensures
            r == lowest_held(self.keys@),
    {
        let mut k: u8 = 0;
        while k < 16
            invariant
                k <= KEY_COUNT,
                forall|j: int| 0 <= j < k ==> !#[trigger] self.keys@[j],
            decreases 16 - k,
        {
            if self.keys[k as usize] {
                assert(self.keys@[k as int]);
                let ghost w = choose|w: u8| w < KEY_COUNT && self.keys@[w as int]
                    && forall|j: int| 0 <= j < w ==> !#[trigger] self.keys@[j];
                assert(k < KEY_COUNT && self.keys@[k as int]
                    && forall|j: int| 0 <= j < k ==> !#[trigger] self.keys@[j]);
                assert(w == k) by {
                    if w < k {
                        assert(!self.keys@[w as int]);
                    } else if w > k {
                        assert(!self.keys@[k as int]);
                    }
                }
                return Some(k);
            }
            k = k + 1;
        }
        None
    }
}

} // verus!
