//! Reading which of the system screenshot shortcuts (Cmd+Shift+3/4/5) macOS
//! still owns, from the XML export of `com.apple.symbolichotkeys`, and the
//! rebindings that hand those shortcuts to the capture actions.

use vstd::prelude::*;

use crate::settings::{changed_shortcut, shortcut_of, Settings};
use crate::shortcuts::ShortcutAction;
use crate::text::{
    chars_of, decimal, decimal_chars, find, find_exec, lemma_find_from_bounds, matches_at,
    matches_at_exec,
};

verus! {

pub open spec fn dict_open() -> Seq<char> {
    seq!['<', 'd', 'i', 'c', 't', '>']
}

pub open spec fn dict_close() -> Seq<char> {
    seq!['<', '/', 'd', 'i', 'c', 't', '>']
}

pub open spec fn enabled_key() -> Seq<char> {
    seq!['<', 'k', 'e', 'y', '>', 'e', 'n', 'a', 'b', 'l', 'e', 'd', '<', '/', 'k', 'e', 'y', '>']
}

pub open spec fn true_tag() -> Seq<char> {
    seq!['<', 't', 'r', 'u', 'e', '/', '>']
}

pub open spec fn false_tag() -> Seq<char> {
    seq!['<', 'f', 'a', 'l', 's', 'e', '/', '>']
}

/// `<key>{id}</key>`, the marker that introduces a hotkey's entry.
pub open spec fn key_marker(id: u32) -> Seq<char> {
    seq!['<', 'k', 'e', 'y', '>'] + decimal(id as nat) + seq!['<', '/', 'k', 'e', 'y', '>']
}

/// Where the scan for the end of a `<dict>` stops: just past the `</dict>`
/// that brings the nesting depth back to zero, or the end of the text.
pub open spec fn dict_scan_end(rest: Seq<char>, i: int, depth: nat) -> int
    decreases rest.len() - i,
{
    if i < 0 || i >= rest.len() {
        rest.len() as int
    } else if matches_at(rest, i, dict_open()) {
        dict_scan_end(rest, i + 6, depth + 1)
    } else if matches_at(rest, i, dict_close()) {
        if depth <= 1 {
            i + 7
        } else {
            dict_scan_end(rest, i + 7, (depth - 1) as nat)
        }
    } else {
        dict_scan_end(rest, i + 1, depth)
    }
}

/// Every position the dict scan steps over one character at a time holds
/// an ASCII character. (On UTF-8 text the byte-wise scan would otherwise
/// slice inside a multi-byte character.)
pub open spec fn dict_scan_ascii(rest: Seq<char>, i: int, depth: nat) -> bool
    decreases rest.len() - i,
{
    if i < 0 || i >= rest.len() {
        true
    } else if matches_at(rest, i, dict_open()) {
        dict_scan_ascii(rest, i + 6, depth + 1)
    } else if matches_at(rest, i, dict_close()) {
        if depth <= 1 {
            true
        } else {
            dict_scan_ascii(rest, i + 7, (depth - 1) as nat)
        }
    } else {
        (rest[i] as u32) < 128 && dict_scan_ascii(rest, i + 1, depth)
    }
}

/// Whether a hotkey entry counts as enabled: a missing entry, a missing
/// `<dict>` or a dict without an `enabled` key counts as enabled (the system
/// default); otherwise the first of `<true/>` / `<false/>` after the
/// `enabled` key decides, and neither present means disabled.
pub open spec fn entry_enabled_spec(xml: Seq<char>, id: u32) -> bool {
    let marker = key_marker(id);
    match find(xml, marker) {
        None => true,
        Some(pos) => {
            let rest = xml.subrange(pos + marker.len(), xml.len() as int);
            match find(rest, dict_open()) {
                None => true,
                Some(dict_start) => {
                    let end = dict_scan_end(rest, dict_start, 0);
                    let body = rest.subrange(dict_start, end);
                    match find(body, enabled_key()) {
                        None => true,
                        Some(enabled_pos) => {
                            let after = body.subrange(enabled_pos + 18, body.len() as int);
                            match (find(after, true_tag()), find(after, false_tag())) {
                                (Some(t), Some(f)) => t < f,
                                (Some(_), None) => true,
                                (None, _) => false,
                            }
                        },
                    }
                },
            }
        },
    }
}

/// The inputs on which reading entry `id` never slices inside a character.
pub open spec fn entry_scan_ascii(xml: Seq<char>, id: u32) -> bool {
    let marker = key_marker(id);
    match find(xml, marker) {
        None => true,
        Some(pos) => {
            let rest = xml.subrange(pos + marker.len(), xml.len() as int);
            match find(rest, dict_open()) {
                None => true,
                Some(dict_start) => dict_scan_ascii(rest, dict_start, 0),
            }
        },
    }
}

proof fn lemma_dict_scan_end_bounds(rest: Seq<char>, i: int, depth: nat)
    requires
        0 <= i <= rest.len(),
    ensures
        i <= dict_scan_end(rest, i, depth) <= rest.len(),
    decreases rest.len() - i,
{
    if i >= rest.len() {
    } else if matches_at(rest, i, dict_open()) {
        lemma_dict_scan_end_bounds(rest, i + 6, depth + 1);
    } else if matches_at(rest, i, dict_close()) {
        if depth > 1 {
            lemma_dict_scan_end_bounds(rest, i + 7, (depth - 1) as nat);
        }
    } else {
        lemma_dict_scan_end_bounds(rest, i + 1, depth);
    }
}

fn literal_chars(s: &str) -> (v: Vec<char>)
    ensures
        v@ == s@,
{
    chars_of(s)
}

/// Where the dict that starts at `dict_start` ends (see `dict_scan_end`).
fn scan_dict_end(rest: &Vec<char>, dict_start: usize) -> (end: usize)
    requires
        dict_start < rest@.len(),
        matches_at(rest@, dict_start as int, dict_open()),
        dict_scan_ascii(rest@, dict_start as int, 0),
    ensures
        end == dict_scan_end(rest@, dict_start as int, 0),
{
    let open = vec!['<', 'd', 'i', 'c', 't', '>'];
    let close = vec!['<', '/', 'd', 'i', 'c', 't', '>'];
    assert(open@ =~= dict_open());
    assert(close@ =~= dict_close());
    let mut depth: usize = 0;
    let mut i = dict_start;
    let mut end = rest.len();
    let ghost target = dict_scan_end(rest@, dict_start as int, 0);
    while i < rest.len()
        invariant_except_break
            i <= rest@.len(),
            open@ == dict_open(),
            close@ == dict_close(),
            end == rest@.len(),
            target == dict_scan_end(rest@, i as int, depth as nat),
            dict_start <= i,
            i == dict_start || depth >= 1,
            i == dict_start ==> depth == 0 && matches_at(rest@, i as int, dict_open()),
            depth <= i,
        ensures
            end == target,
        decreases rest@.len() - i,
    {
        if matches_at_exec(rest.as_slice(), i, open.as_slice()) {
            depth = depth + 1;
            i = i + 6;
        } else if matches_at_exec(rest.as_slice(), i, close.as_slice()) {
            depth = depth - 1;
            i = i + 7;
            if depth == 0 {
                end = i;
                break;
            }
        } else {
            i = i + 1;
        }
    }
    end
}

/// Whether hotkey entry `id` is enabled in the exported plist XML.
pub fn entry_enabled(xml: &str, id: u32) -> (r: bool)
    requires
        entry_scan_ascii(xml@, id),
    ensures
        r == entry_enabled_spec(xml@, id),
{
    let text = chars_of(xml);
    let mut marker = literal_chars("<key>");
    let mut digits = decimal_chars(id as u64);
    marker.append(&mut digits);
    let mut tail = literal_chars("</key>");
    marker.append(&mut tail);
    proof {
        reveal_strlit("<key>");
        reveal_strlit("</key>");
        assert(marker@ =~= key_marker(id));
    }
    let pos = match find_exec(text.as_slice(), marker.as_slice(), 0) {
        None => return true,
        Some(pos) => pos,
    };
    proof {
        lemma_find_from_bounds(text@, marker@, 0);
        assert(matches_at(text@, pos as int, marker@));
        assert(pos + marker@.len() <= text@.len());
        assert(text@.len() == text.len());
    }
    let rest = crate::text::slice_chars(text.as_slice(), pos + marker.len(), text.len());
    let open = vec!['<', 'd', 'i', 'c', 't', '>'];
    assert(open@ =~= dict_open());
    let dict_start = match find_exec(rest.as_slice(), open.as_slice(), 0) {
        None => return true,
        Some(dict_start) => dict_start,
    };
    proof {
        lemma_find_from_bounds(rest@, open@, 0);
    }
    let end = scan_dict_end(&rest, dict_start);
    proof {
        lemma_dict_scan_end_bounds(rest@, dict_start as int, 0);
    }
    let body = crate::text::slice_chars(rest.as_slice(), dict_start, end);
    let key = vec![
        '<',
        'k',
        'e',
        'y',
        '>',
        'e',
        'n',
        'a',
        'b',
        'l',
        'e',
        'd',
        '<',
        '/',
        'k',
        'e',
        'y',
        '>',
    ];
    assert(key@ =~= enabled_key());
    let enabled_pos = match find_exec(body.as_slice(), key.as_slice(), 0) {
        None => return true,
        Some(p) => p,
    };
    proof {
        lemma_find_from_bounds(body@, key@, 0);
    }
    let after = crate::text::slice_chars(body.as_slice(), enabled_pos + 18, body.len());
    let true_pat = vec!['<', 't', 'r', 'u', 'e', '/', '>'];
    let false_pat = vec!['<', 'f', 'a', 'l', 's', 'e', '/', '>'];
    assert(true_pat@ =~= true_tag());
    assert(false_pat@ =~= false_tag());
    match (find_exec(after.as_slice(), true_pat.as_slice(), 0), find_exec(after.as_slice(), false_pat.as_slice(), 0)) {
        (Some(t), Some(f)) => t < f,
        (Some(_), None) => true,
        (None, _) => false,
    }
}

/// Whether `entry_enabled` may read entry `id` of `xml` (see `entry_scan_ascii`).
pub fn entry_scan_is_ascii(xml: &str, id: u32) -> (r: bool)
    ensures
        r == entry_scan_ascii(xml@, id),
{
    let text = chars_of(xml);
    let mut marker = literal_chars("<key>");
    let mut digits = decimal_chars(id as u64);
    marker.append(&mut digits);
    let mut tail = literal_chars("</key>");
    marker.append(&mut tail);
    proof {
        reveal_strlit("<key>");
        reveal_strlit("</key>");
        assert(marker@ =~= key_marker(id));
    }
    let pos = match find_exec(text.as_slice(), marker.as_slice(), 0) {
        None => return true,
        Some(pos) => pos,
    };
    proof {
        lemma_find_from_bounds(text@, marker@, 0);
        assert(matches_at(text@, pos as int, marker@));
        assert(pos + marker@.len() <= text@.len());
        assert(text@.len() == text.len());
    }
    let rest = crate::text::slice_chars(text.as_slice(), pos + marker.len(), text.len());
    let open = vec!['<', 'd', 'i', 'c', 't', '>'];
    let close = vec!['<', '/', 'd', 'i', 'c', 't', '>'];
    assert(open@ =~= dict_open());
    assert(close@ =~= dict_close());
    let dict_start = match find_exec(rest.as_slice(), open.as_slice(), 0) {
        None => return true,
        Some(dict_start) => dict_start,
    };
    proof {
        lemma_find_from_bounds(rest@, open@, 0);
    }
    let mut depth: usize = 0;
    let mut i = dict_start;
    let ghost target = dict_scan_ascii(rest@, dict_start as int, 0);
    while i < rest.len()
        invariant
            i <= rest@.len(),
            open@ == dict_open(),
            close@ == dict_close(),
            target == entry_scan_ascii(xml@, id),
            target == dict_scan_ascii(rest@, i as int, depth as nat),
            dict_start <= i,
            i == dict_start || depth >= 1,
            i == dict_start ==> depth == 0 && matches_at(rest@, i as int, dict_open()),
            depth <= i,
        decreases rest@.len() - i,
    {
        if matches_at_exec(rest.as_slice(), i, open.as_slice()) {
            depth = depth + 1;
            i = i + 6;
        } else if matches_at_exec(rest.as_slice(), i, close.as_slice()) {
            depth = depth - 1;
            i = i + 7;
            if depth == 0 {
                return true;
            }
        } else {
            if rest[i] as u32 >= 128 {
                return false;
            }
            i = i + 1;
        }
    }
    true
}

/// The hotkey ids of the screenshot shortcuts, with the digit key each uses.
pub open spec fn owned_keys_spec(xml: Seq<char>) -> Seq<Seq<char>> {
    (if entry_enabled_spec(xml, 28) {
        seq!["3"@]
    } else {
        seq![]
    }) + (if entry_enabled_spec(xml, 30) {
        seq!["4"@]
    } else {
        seq![]
    }) + (if entry_enabled_spec(xml, 184) {
        seq!["5"@]
    } else {
        seq![]
    })
}

/// The digit keys ("3", "4", "5") whose screenshot shortcut macOS still owns,
/// in that order.
pub fn owned_screenshot_keys(xml: &str) -> (keys: Vec<String>)
    requires
        entry_scan_ascii(xml@, 28),
        entry_scan_ascii(xml@, 30),
        entry_scan_ascii(xml@, 184),
    ensures
        keys@.map_values(|k: String| k@) == owned_keys_spec(xml@),
{
    let mut keys: Vec<String> = Vec::new();
    let ghost mut expected: Seq<Seq<char>> = seq![];
    if entry_enabled(xml, 28) {
        keys.push("3".to_owned());
        proof {
            expected = expected.push("3"@);
        }
    }
    assert(keys@.map_values(|k: String| k@) =~= expected);
    if entry_enabled(xml, 30) {
        keys.push("4".to_owned());
        proof {
            expected = expected.push("4"@);
        }
    }
    assert(keys@.map_values(|k: String| k@) =~= expected);
    if entry_enabled(xml, 184) {
        keys.push("5".to_owned());
        proof {
            expected = expected.push("5"@);
        }
    }
    assert(keys@.map_values(|k: String| k@) =~= expected);
    assert(expected =~= owned_keys_spec(xml@));
    keys
}


/// The macOS screenshot shortcuts and the capture actions that take them
/// over: Cmd+Shift+3 fullscreen, Cmd+Shift+4 area, Cmd+Shift+5 window.
pub open spec fn screenshot_targets() -> Seq<(ShortcutAction, Seq<char>)> {
    seq![
        (ShortcutAction::Fullscreen, "Cmd+Shift+3"@),
        (ShortcutAction::Area, "Cmd+Shift+4"@),
        (ShortcutAction::Window, "Cmd+Shift+5"@),
    ]
}

/// The rebindings (action, current accelerator, new accelerator) that move
/// the capture actions onto the macOS screenshot shortcuts.
pub fn screenshot_changes(settings: &Settings) -> (changes: Vec<(ShortcutAction, String, String)>)
    ensures
        changes@.len() == screenshot_targets().len(),
        forall|j: int|
            0 <= j < changes@.len() ==> {
                &&& (#[trigger] changes@[j]).0 == screenshot_targets()[j].0
                &&& changes@[j].1@ == shortcut_of(*settings, screenshot_targets()[j].0)
                &&& changes@[j].2@ == screenshot_targets()[j].1
            },
{
    let mut changes: Vec<(ShortcutAction, String, String)> = Vec::new();
    changes.push(
        (
            ShortcutAction::Fullscreen,
            settings.shortcut(ShortcutAction::Fullscreen).to_owned(),
            "Cmd+Shift+3".to_owned(),
        ),
    );
    changes.push(
        (
            ShortcutAction::Area,
            settings.shortcut(ShortcutAction::Area).to_owned(),
            "Cmd+Shift+4".to_owned(),
        ),
    );
    changes.push(
        (
            ShortcutAction::Window,
            settings.shortcut(ShortcutAction::Window).to_owned(),
            "Cmd+Shift+5".to_owned(),
        ),
    );
    changes
}


/// Once the screenshot rebindings are stored, fullscreen capture holds
/// Cmd+Shift+3, area capture Cmd+Shift+4 and window capture Cmd+Shift+5,
/// whatever they held before.
pub proof fn lemma_screenshot_changes_assign(
    changes: Seq<(ShortcutAction, String, String)>,
    area: Seq<char>,
    window: Seq<char>,
    fullscreen: Seq<char>,
)
    requires
        changes.len() == screenshot_targets().len(),
        forall|j: int|
            0 <= j < changes.len() ==> (#[trigger] changes[j]).0 == screenshot_targets()[j].0
                && changes[j].2@ == screenshot_targets()[j].1,
    ensures
        changed_shortcut(fullscreen, changes, ShortcutAction::Fullscreen) == "Cmd+Shift+3"@,
        changed_shortcut(area, changes, ShortcutAction::Area) == "Cmd+Shift+4"@,
        changed_shortcut(window, changes, ShortcutAction::Window) == "Cmd+Shift+5"@,
{
    let c0 = changes[0];
    let c1 = changes[1];
    let c2 = changes[2];
    let two = changes.drop_last();
    let one = two.drop_last();
    assert(two.last() == c1);
    assert(one.last() == c0);
    assert(one.drop_last().len() == 0);
    reveal_with_fuel(changed_shortcut, 4);
}

} // verus!
