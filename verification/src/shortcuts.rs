//! Global-shortcut accelerators: the capture actions they trigger, their
//! defaults, and which accelerator strings are acceptable.

use vstd::prelude::*;

use crate::capture::CaptureMode;
use crate::i18n::{t, translation, I18n};

verus! {

#[derive(Debug, Clone, Copy, PartialEq, Eq, Structural)]
pub enum ShortcutAction {
    Area,
    Window,
    Fullscreen,
}

/// Every action, in the order that settles conflicts between them.
pub const ACTIONS: [ShortcutAction; 3] = [
    ShortcutAction::Area,
    ShortcutAction::Window,
    ShortcutAction::Fullscreen,
];

/// The default accelerator of each action.
pub open spec fn default_accel_spec(action: ShortcutAction) -> Seq<char> {
    match action {
        ShortcutAction::Area => "CmdOrCtrl+Shift+7"@,
        ShortcutAction::Window => "CmdOrCtrl+Shift+8"@,
        ShortcutAction::Fullscreen => "CmdOrCtrl+Shift+9"@,
    }
}

pub open spec fn mode_spec(action: ShortcutAction) -> CaptureMode {
    match action {
        ShortcutAction::Area => CaptureMode::Area,
        ShortcutAction::Window => CaptureMode::Window,
        ShortcutAction::Fullscreen => CaptureMode::Fullscreen,
    }
}

impl ShortcutAction {
    pub fn default_accel(self) -> (accel: &'static str)
        ensures
            accel@ == default_accel_spec(self),
    {
        match self {
            ShortcutAction::Area => "CmdOrCtrl+Shift+7",
            ShortcutAction::Window => "CmdOrCtrl+Shift+8",
            ShortcutAction::Fullscreen => "CmdOrCtrl+Shift+9",
        }
    }

    /// The capture mode the action triggers.
    pub fn mode(self) -> (mode: CaptureMode)
        ensures
            mode == mode_spec(self),
    {
        match self {
            ShortcutAction::Area => CaptureMode::Area,
            ShortcutAction::Window => CaptureMode::Window,
            ShortcutAction::Fullscreen => CaptureMode::Fullscreen,
        }
    }
}

/// A parsed accelerator: modifier bits and key code, as the global-hotkey
/// crate reports them. Two accelerators trigger on the same keys exactly
/// when these are equal.
#[derive(Debug, Clone, Copy, PartialEq, Eq, Structural)]
pub struct Shortcut {
    pub mods: u32,
    pub key: u32,
}

/// Control, Alt and Super (Cmd): the modifiers that make a global shortcut
/// safe to grab (bit values of `keyboard_types::Modifiers`).
pub const REQUIRED_MODIFIERS: u32 = 0x2009;

/// Why an accelerator is refused.
#[derive(Debug, Clone, Copy, PartialEq, Eq, Structural)]
pub enum ShortcutError {
    /// The hotkey parser does not accept it.
    Invalid,
    /// It has none of Control, Alt, Super.
    MissingModifier,
}

/// How the hotkey parser of the global-hotkey crate reads an accelerator:
/// `None` when it refuses the text, else whether the shortcut it reads holds
/// Control, Alt or Super. Both depend on the text alone, on every platform:
/// the tokens accepted are the same everywhere, and "CmdOrCtrl" reads as
/// Super on macOS and as Control elsewhere, both of them among these three.
pub uninterp spec fn hotkey_reading(accel: Seq<char>) -> Option<bool>;

/// Parses an accelerator with `global_hotkey::hotkey::HotKey::from_str` and
/// reports its modifier bits and key code. Trusted: the result is present
/// exactly when the parser accepts the text, and its modifiers meet
/// `REQUIRED_MODIFIERS` exactly as `hotkey_reading` says. The bits
/// themselves are left unsaid: "CmdOrCtrl" sets a different bit per
/// platform.
#[verifier::external_body]
pub(crate) fn parse_accelerator(accel: &str) -> (parsed: Option<Shortcut>)
    ensures
        match hotkey_reading(accel@) {
            None => parsed is None,
            Some(guarded) => parsed matches Some(s) && ((s.mods & REQUIRED_MODIFIERS != 0) == guarded),
        },
{
    accel.parse::<global_hotkey::hotkey::HotKey>().ok().map(
        |h| Shortcut { mods: h.mods.bits(), key: h.key as u32 },
    )
}

/// Why an accelerator is refused, if it is: the parser refuses the text, or
/// the shortcut it reads lacks Control, Alt and Super.
pub open spec fn refusal(accel: Seq<char>) -> Option<ShortcutError> {
    match hotkey_reading(accel) {
        None => Some(ShortcutError::Invalid),
        Some(guarded) => if guarded {
            None
        } else {
            Some(ShortcutError::MissingModifier)
        },
    }
}

/// The verdict on a parser result: refused when unparsed or lacking one of
/// Control, Alt, Super.
pub open spec fn checked_shortcut(parsed: Option<Shortcut>) -> Result<Shortcut, ShortcutError> {
    match parsed {
        None => Err(ShortcutError::Invalid),
        Some(s) => if s.mods & REQUIRED_MODIFIERS == 0 {
            Err(ShortcutError::MissingModifier)
        } else {
            Ok(s)
        },
    }
}

/// Judges what the hotkey parser made of an accelerator.
pub fn check_shortcut(parsed: Option<Shortcut>) -> (r: Result<Shortcut, ShortcutError>)
    ensures
        r == checked_shortcut(parsed),
{
    match parsed {
        None => Err(ShortcutError::Invalid),
        Some(s) => if s.mods & REQUIRED_MODIFIERS == 0 {
            Err(ShortcutError::MissingModifier)
        } else {
            Ok(s)
        },
    }
}

/// Parses and judges an accelerator, without messages.
pub fn parse_shortcut(accel: &str) -> (r: Result<Shortcut, ShortcutError>)
    ensures
        match refusal(accel@) {
            Some(e) => r == Err::<Shortcut, ShortcutError>(e),
            None => r matches Ok(s) && s.mods & REQUIRED_MODIFIERS != 0,
        },
{
    check_shortcut(parse_accelerator(accel))
}

/// Whether moving from an accelerator the parser read as `old_parsed` to
/// `new` needs a rebind: not when both trigger on the same keys.
pub fn rebind_needed(old_parsed: Option<Shortcut>, new: Shortcut) -> (r: bool)
    ensures
        r == (old_parsed != Some(new)),
{
    match old_parsed {
        Some(old) => !(old.mods == new.mods && old.key == new.key),
        None => true,
    }
}

/// The message key of each refusal.
pub open spec fn error_key(e: ShortcutError) -> Seq<char> {
    match e {
        ShortcutError::Invalid => "settings.shortcut_error_invalid"@,
        ShortcutError::MissingModifier => "settings.shortcut_error_modifier"@,
    }
}

/// The translated message of a refusal.
pub fn error_message(i18n: &I18n, e: ShortcutError) -> (msg: String)
    ensures
        msg@ == translation(*i18n, error_key(e)),
{
    match e {
        ShortcutError::Invalid => t(i18n, "settings.shortcut_error_invalid"),
        ShortcutError::MissingModifier => t(i18n, "settings.shortcut_error_modifier"),
    }
}

/// An accelerator usable as a global shortcut, or the translated reason why not.
pub fn validate(i18n: &I18n, accel: &str) -> (r: Result<Shortcut, String>)
    ensures
        match refusal(accel@) {
            Some(e) => r matches Err(msg) && msg@ == translation(*i18n, error_key(e)),
            None => r matches Ok(s) && s.mods & REQUIRED_MODIFIERS != 0,
        },
{
    match parse_shortcut(accel) {
        Ok(s) => Ok(s),
        Err(e) => Err(error_message(i18n, e)),
    }
}


/// A change to the global-shortcut registrations.
#[derive(Debug, Clone, PartialEq, Eq)]
pub enum ShortcutOp {
    /// Drop the binding of this accelerator.
    Unregister(String),
    /// Bind this accelerator to the capture of this action.
    Register(ShortcutAction, String),
}

/// The accelerators bound after `op`, starting from `reg`, when it succeeds.
pub open spec fn apply_op(reg: Set<Seq<char>>, op: ShortcutOp) -> Set<Seq<char>> {
    match op {
        ShortcutOp::Unregister(a) => reg.remove(a@),
        ShortcutOp::Register(_, a) => reg.insert(a@),
    }
}

/// The accelerators bound after `ops`, in order, starting from `reg`.
pub open spec fn apply_ops(reg: Set<Seq<char>>, ops: Seq<ShortcutOp>) -> Set<Seq<char>>
    decreases ops.len(),
{
    if ops.len() == 0 {
        reg
    } else {
        apply_ops(apply_op(reg, ops[0]), ops.drop_first())
    }
}

/// First step of a rebind: drop every old accelerator.
pub open spec fn release_spec(changes: Seq<(ShortcutAction, String, String)>) -> Seq<ShortcutOp> {
    Seq::new(changes.len(), |j: int| ShortcutOp::Unregister(changes[j].1))
}

/// Then the new accelerators are bound in order; these are the first `k`.
pub open spec fn bind_spec(changes: Seq<(ShortcutAction, String, String)>, k: int) -> Seq<ShortcutOp> {
    Seq::new(k as nat, |j: int| ShortcutOp::Register(changes[j].0, changes[j].2))
}

/// After binding new accelerator `failed` failed: drop the new ones bound
/// before it and bind every old one again.
pub open spec fn rollback_spec(changes: Seq<(ShortcutAction, String, String)>, failed: int) -> Seq<
    ShortcutOp,
> {
    Seq::new(failed as nat, |j: int| ShortcutOp::Unregister(changes[j].2)) + Seq::new(
        changes.len(),
        |j: int| ShortcutOp::Register(changes[j].0, changes[j].1),
    )
}

/// The operations that free the old accelerators of `changes` (action, old
/// accelerator, new accelerator) before the new ones are bound.
pub fn release_ops(changes: &[(ShortcutAction, String, String)]) -> (ops: Vec<ShortcutOp>)
    ensures
        ops@ == release_spec(changes@),
{
    let mut ops: Vec<ShortcutOp> = Vec::new();
    let mut i: usize = 0;
    while i < changes.len()
        invariant
            i <= changes@.len(),
            ops@ == release_spec(changes@).subrange(0, i as int),
        decreases changes@.len() - i,
    {
        ops.push(ShortcutOp::Unregister(changes[i].1.clone()));
        i = i + 1;
        assert(ops@ =~= release_spec(changes@).subrange(0, i as int));
    }
    assert(release_spec(changes@).subrange(0, i as int) =~= release_spec(changes@));
    ops
}

/// The operations that undo a rebind whose new accelerator `failed` could
/// not be bound: the new accelerators bound before it are dropped and every
/// old accelerator is bound again.
pub fn rollback_ops(changes: &[(ShortcutAction, String, String)], failed: usize) -> (ops: Vec<
    ShortcutOp,
>)
    requires
        failed < changes@.len(),
    ensures
        ops@ == rollback_spec(changes@, failed as int),
{
    let ghost target = rollback_spec(changes@, failed as int);
    let mut ops: Vec<ShortcutOp> = Vec::new();
    let mut i: usize = 0;
    while i < failed
        invariant
            i <= failed < changes@.len(),
            target == rollback_spec(changes@, failed as int),
            ops@ == target.subrange(0, i as int),
        decreases failed - i,
    {
        ops.push(ShortcutOp::Unregister(changes[i].2.clone()));
        i = i + 1;
        assert(ops@ =~= target.subrange(0, i as int));
    }
    let mut k: usize = 0;
    while k < changes.len()
        invariant
            failed < changes@.len(),
            k <= changes@.len(),
            target == rollback_spec(changes@, failed as int),
            ops@ == target.subrange(0, failed + k),
        decreases changes@.len() - k,
    {
        ops.push(ShortcutOp::Register(changes[k].0, changes[k].1.clone()));
        k = k + 1;
        assert(ops@ =~= target.subrange(0, failed + k));
    }
    assert(target.subrange(0, failed + k) =~= target);
    ops
}

proof fn lemma_apply_ops_append(reg: Set<Seq<char>>, a: Seq<ShortcutOp>, b: Seq<ShortcutOp>)
    ensures
        apply_ops(reg, a + b) == apply_ops(apply_ops(reg, a), b),
    decreases a.len(),
{
    if a.len() == 0 {
        assert(a + b =~= b);
    } else {
        assert((a + b).drop_first() =~= a.drop_first() + b);
        lemma_apply_ops_append(apply_op(reg, a[0]), a.drop_first(), b);
    }
}

/// The accelerators that `ops` touch.
pub open spec fn accels_of(ops: Seq<ShortcutOp>) -> Set<Seq<char>> {
    Set::new(
        |a: Seq<char>|
            exists|j: int|
                0 <= j < ops.len() && #[trigger] op_accel(ops[j]) == a,
    )
}

pub open spec fn op_accel(op: ShortcutOp) -> Seq<char> {
    match op {
        ShortcutOp::Unregister(a) => a@,
        ShortcutOp::Register(_, a) => a@,
    }
}

proof fn lemma_accels_of_step(ops: Seq<ShortcutOp>)
    requires
        ops.len() > 0,
    ensures
        accels_of(ops) == accels_of(ops.drop_first()).insert(op_accel(ops[0])),
{
    let rest = ops.drop_first();
    assert forall|a: Seq<char>| accels_of(ops).contains(a) implies accels_of(rest).insert(
        op_accel(ops[0]),
    ).contains(a) by {
        let j = choose|j: int| 0 <= j < ops.len() && #[trigger] op_accel(ops[j]) == a;
        if j > 0 {
            assert(op_accel(rest[j - 1]) == a);
        }
    }
    assert forall|a: Seq<char>| accels_of(rest).insert(op_accel(ops[0])).contains(a) implies accels_of(
        ops,
    ).contains(a) by {
        if a != op_accel(ops[0]) {
            let j = choose|j: int| 0 <= j < rest.len() && #[trigger] op_accel(rest[j]) == a;
            assert(op_accel(ops[j + 1]) == a);
        } else {
            assert(op_accel(ops[0]) == a);
        }
    }
    assert(accels_of(ops) =~= accels_of(rest).insert(op_accel(ops[0])));
}

proof fn lemma_apply_unregisters(reg: Set<Seq<char>>, ops: Seq<ShortcutOp>)
    requires
        forall|j: int| 0 <= j < ops.len() ==> #[trigger] ops[j] is Unregister,
    ensures
        apply_ops(reg, ops) == reg.difference(accels_of(ops)),
    decreases ops.len(),
{
    if ops.len() == 0 {
        assert(reg.difference(accels_of(ops)) =~= reg);
    } else {
        let rest = ops.drop_first();
        assert forall|j: int| 0 <= j < rest.len() implies #[trigger] rest[j] is Unregister by {
            assert(ops[j + 1] is Unregister);
        }
        assert(ops[0] is Unregister);
        lemma_apply_unregisters(apply_op(reg, ops[0]), rest);
        lemma_accels_of_step(ops);
        assert(apply_op(reg, ops[0]) == reg.remove(op_accel(ops[0])));
        assert(reg.remove(op_accel(ops[0])).difference(accels_of(rest)) =~= reg.difference(
            accels_of(ops),
        ));
    }
}

proof fn lemma_apply_registers(reg: Set<Seq<char>>, ops: Seq<ShortcutOp>)
    requires
        forall|j: int| 0 <= j < ops.len() ==> #[trigger] ops[j] is Register,
    ensures
        apply_ops(reg, ops) == reg.union(accels_of(ops)),
    decreases ops.len(),
{
    if ops.len() == 0 {
        assert(reg.union(accels_of(ops)) =~= reg);
    } else {
        let rest = ops.drop_first();
        assert forall|j: int| 0 <= j < rest.len() implies #[trigger] rest[j] is Register by {
            assert(ops[j + 1] is Register);
        }
        assert(ops[0] is Register);
        lemma_apply_registers(apply_op(reg, ops[0]), rest);
        lemma_accels_of_step(ops);
        assert(apply_op(reg, ops[0]) == reg.insert(op_accel(ops[0])));
        assert(reg.insert(op_accel(ops[0])).union(accels_of(rest)) =~= reg.union(accels_of(ops)));
    }
}

/// A rebind that fails at new accelerator `failed` and is rolled back
/// leaves the bound accelerators as they were: every old accelerator was
/// bound, the new ones bound before the failure were not bound to anything
/// outside the change, and the re-registrations succeed.
pub proof fn lemma_failed_rebind_restores(
    reg: Set<Seq<char>>,
    changes: Seq<(ShortcutAction, String, String)>,
    failed: int,
)
    requires
        0 <= failed < changes.len(),
        forall|j: int| 0 <= j < changes.len() ==> reg.contains(#[trigger] changes[j].1@),
        forall|j: int|
            0 <= j < failed && reg.contains(#[trigger] changes[j].2@) ==> exists|k: int|
                0 <= k < changes.len() && changes[k].1@ == changes[j].2@,
    ensures
        apply_ops(
            reg,
            release_spec(changes) + bind_spec(changes, failed) + rollback_spec(changes, failed),
        ) == reg,
{
    let release = release_spec(changes);
    let bind = bind_spec(changes, failed);
    let undo = Seq::new(failed as nat, |j: int| ShortcutOp::Unregister(changes[j].2));
    let restore = Seq::new(changes.len(), |j: int| ShortcutOp::Register(changes[j].0, changes[j].1));
    assert(rollback_spec(changes, failed) == undo + restore);
    assert(release + bind + (undo + restore) =~= ((release + bind) + undo) + restore);
    lemma_apply_ops_append(reg, release + bind + undo, restore);
    lemma_apply_ops_append(reg, release + bind, undo);
    lemma_apply_ops_append(reg, release, bind);
    lemma_apply_unregisters(reg, release);
    let r1 = reg.difference(accels_of(release));
    lemma_apply_registers(r1, bind);
    let r2 = r1.union(accels_of(bind));
    lemma_apply_unregisters(r2, undo);
    let r3 = r2.difference(accels_of(undo));
    lemma_apply_registers(r3, restore);
    assert(accels_of(bind) =~= accels_of(undo)) by {
        assert forall|a: Seq<char>| accels_of(bind).contains(a) implies accels_of(undo).contains(a) by {
            let j = choose|j: int| 0 <= j < bind.len() && #[trigger] op_accel(bind[j]) == a;
            assert(op_accel(undo[j]) == a);
        }
        assert forall|a: Seq<char>| accels_of(undo).contains(a) implies accels_of(bind).contains(a) by {
            let j = choose|j: int| 0 <= j < undo.len() && #[trigger] op_accel(undo[j]) == a;
            assert(op_accel(bind[j]) == a);
        }
    }
    assert(accels_of(release) =~= accels_of(restore)) by {
        assert forall|a: Seq<char>| accels_of(release).contains(a) implies accels_of(restore).contains(a) by {
            let j = choose|j: int| 0 <= j < release.len() && #[trigger] op_accel(release[j]) == a;
            assert(op_accel(restore[j]) == a);
        }
        assert forall|a: Seq<char>| accels_of(restore).contains(a) implies accels_of(release).contains(a) by {
            let j = choose|j: int| 0 <= j < restore.len() && #[trigger] op_accel(restore[j]) == a;
            assert(op_accel(release[j]) == a);
        }
    }
    assert forall|a: Seq<char>| #[trigger] reg.contains(a) implies r3.union(accels_of(restore)).contains(a) by {
        if !accels_of(release).contains(a) {
            assert(r1.contains(a));
            if accels_of(undo).contains(a) {
                let j = choose|j: int| 0 <= j < undo.len() && #[trigger] op_accel(undo[j]) == a;
                assert(reg.contains(changes[j].2@));
                let k = choose|k: int| 0 <= k < changes.len() && changes[k].1@ == changes[j].2@;
                assert(op_accel(release[k]) == a);
            }
        }
    }
    assert forall|a: Seq<char>| #[trigger] r3.union(accels_of(restore)).contains(a) implies reg.contains(a) by {
        if accels_of(restore).contains(a) {
            let j = choose|j: int| 0 <= j < restore.len() && #[trigger] op_accel(restore[j]) == a;
            assert(reg.contains(changes[j].1@));
        }
    }
    assert(r3.union(accels_of(restore)) =~= reg);
}

} // verus!
