use vstd::prelude::*;

verus! {

// Raw key codes as the windowing layer numbers them: digits are 0..=9,
// letters are 10..=35, the arrow block is 51..=54.
pub const KEY_A: u32 = 10;
pub const KEY_D: u32 = 13;
pub const KEY_J: u32 = 19;
pub const KEY_Q: u32 = 26;
pub const KEY_S: u32 = 28;
pub const KEY_W: u32 = 32;
pub const KEY_DOWN: u32 = 51;
pub const KEY_LEFT: u32 = 52;
pub const KEY_RIGHT: u32 = 53;
pub const KEY_UP: u32 = 54;
pub const KEY_NUMPAD1: u32 = 87;

/// The logical action a raw key press stands for, independent of which
/// physical key produced it.
#[derive(Clone, Copy, Debug, PartialEq, Eq, Structural)]
pub enum KeyMap {
    Unknown,
    Left,
    Right,
    Up,
    Down,
    Att,
}

/// The fixed lookup table from a raw key code to its logical action.
/// Both players' keys are mapped; codes outside the table give `Unknown`.
pub open spec fn map_code(code: u32) -> KeyMap {
    if code == KEY_W || code == KEY_UP {
        KeyMap::Up
    } else if code == KEY_S || code == KEY_DOWN {
        KeyMap::Down
    } else if code == KEY_A || code == KEY_LEFT {
        KeyMap::Left
    } else if code == KEY_D || code == KEY_RIGHT {
        KeyMap::Right
    } else if code == KEY_J || code == KEY_NUMPAD1 {
        KeyMap::Att
    } else {
        KeyMap::Unknown
    }
}

/// Whether a raw key code belongs to the given player's key layout:
/// player one plays on the letter block, player two on the digits and
/// the arrow keys.
pub open spec fn in_layout(code: u32, is_p1: bool) -> bool {
    if is_p1 {
        10 <= code && code <= 35
    } else {
        code <= 9 || (51 <= code && code <= 54)
    }
}

/// Classification of one raw key under a player's layout: total, and
/// `Unknown` for every key the layout does not admit.
pub open spec fn classify_spec(code: u32, is_p1: bool) -> KeyMap {
    if in_layout(code, is_p1) {
        map_code(code)
    } else {
        KeyMap::Unknown
    }
}

/// The logical actions that a player's layout admits from a tick's raw
/// key codes, in order; codes outside the layout are skipped entirely.
pub open spec fn filter_spec(codes: Seq<u32>, is_p1: bool) -> Seq<KeyMap>
    decreases codes.len(),
{
    if codes.len() == 0 {
        Seq::empty()
    } else {
        let rest = filter_spec(codes.drop_last(), is_p1);
        if in_layout(codes.last(), is_p1) {
            rest.push(map_code(codes.last()))
        } else {
            rest
        }
    }
}

impl KeyMap {
    /// Looks one raw key code up in the merged table.
    pub fn from_code(code: u32) -> (r: KeyMap)
        ensures
            r == map_code(code),
    {
        if code == KEY_W || code == KEY_UP {
            KeyMap::Up
        } else if code == KEY_S || code == KEY_DOWN {
            KeyMap::Down
        } else if code == KEY_A || code == KEY_LEFT {
            KeyMap::Left
        } else if code == KEY_D || code == KEY_RIGHT {
            KeyMap::Right
        } else if code == KEY_J || code == KEY_NUMPAD1 {
            KeyMap::Att
        } else {
            KeyMap::Unknown
        }
    }

    /// Maps a whole tick's raw key codes through the merged table.
    pub fn from_key_list(list: &Vec<u32>) -> (r: Vec<KeyMap>)
        ensures
            r@ == list@.map_values(|c: u32| map_code(c)),
    {
        let mut res: Vec<KeyMap> = Vec::with_capacity(list.len());
        let mut i: usize = 0;
        while i < list.len()
            invariant
                i <= list.len(),
                res@.len() == i,
                forall|j: int| 0 <= j < i ==> res@[j] == map_code(list@[j]),
            decreases list.len() - i,
        {
            res.push(KeyMap::from_code(list[i]));
            i += 1;
        }
        proof {
            assert(res@ =~= list@.map_values(|c: u32| map_code(c)));
        }
        res
    }
}

/// KeyClassifier: classifies one raw key code under a player's layout.
pub fn classify(code: u32, is_p1: bool) -> (r: KeyMap)
    ensures
        r == classify_spec(code, is_p1),
{
    let admitted = if is_p1 {
        10 <= code && code <= 35
    } else {
        code <= 9 || (51 <= code && code <= 54)
    };
    if admitted {
        KeyMap::from_code(code)
    } else {
        KeyMap::Unknown
    }
}

/// Law: the two key layouts are disjoint. A key that carries an action
/// for one player is `Unknown` under the other player's layout.
pub proof fn lemma_layouts_disjoint(code: u32)
    ensures
        classify_spec(code, true) != KeyMap::Unknown ==> classify_spec(code, false)
            == KeyMap::Unknown,
        classify_spec(code, false) != KeyMap::Unknown ==> classify_spec(code, true)
            == KeyMap::Unknown,
{
}

} // verus!
