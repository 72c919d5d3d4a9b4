//! The shortcuts that work while the window is hidden.
use vstd::prelude::*;

verus! {

/// A key and the modifier keys that are held with it.
#[derive(Clone, Copy, Debug, PartialEq, Eq, Structural)]
pub struct Shortcut {
    pub key_code: u16,
    pub modifiers: u64,
}

/// The listener for key presses in other programs, by the number that the
/// platform keeps it under.
#[derive(Clone, Copy, Debug, PartialEq, Eq, Structural)]
pub struct EventTapHandle {
    pub number: u64,
}

/// A shell command of the user.
#[derive(Debug)]
pub struct Shelly {
    pub command: String,
    pub alias: String,
}

impl Clone for Shelly {
    fn clone(&self) -> (copy: Self)
        ensures
            copy == *self,
    {
        Shelly { command: self.command.clone(), alias: self.alias.clone() }
    }
}

/// All the hotkeys: the one that shows and hides the window, the one that opens
/// the clipboard history, and those that run a shell command.
#[derive(Debug)]
pub struct Hotkeys {
    pub handle: Option<EventTapHandle>,
    pub toggle: Shortcut,
    pub clipboard_hotkey: Shortcut,
    pub shells: Vec<(Shortcut, Shelly)>,
}

impl Clone for Hotkeys {
    fn clone(&self) -> (copy: Self)
        ensures
            copy.handle == self.handle,
            copy.toggle == self.toggle,
            copy.clipboard_hotkey == self.clipboard_hotkey,
            copy.shells@ == self.shells@,
    {
        let mut shells: Vec<(Shortcut, Shelly)> = Vec::new();
        for i in 0..self.shells.len()
            invariant
                shells@ == self.shells@.take(i as int),
        {
            shells.push((self.shells[i].0, self.shells[i].1.clone()));
            assert(self.shells@.take(i + 1) =~= self.shells@.take(i as int).push(
                self.shells@[i as int],
            ));
        }
        assert(self.shells@.take(self.shells@.len() as int) =~= self.shells@);
        Hotkeys {
            handle: self.handle,
            toggle: self.toggle,
            clipboard_hotkey: self.clipboard_hotkey,
            shells,
        }
    }
}

impl Hotkeys {
    /// The shortcuts that run a shell command.
    pub open spec fn shell_shortcuts(&self) -> Seq<Shortcut> {
        self.shells@.map_values(|shell: (Shortcut, Shelly)| shell.0)
    }

    /// No two shell commands have one shortcut.
    pub open spec fn wf(&self) -> bool {
        self.shell_shortcuts().no_duplicates()
    }

    /// Gives the shortcut `shortcut` the command `shelly`, in place of the one
    /// that it had.
    pub fn set_shell(&mut self, shortcut: Shortcut, shelly: Shelly)
        requires
            old(self).wf(),
        ensures
            final(self).wf(),
            final(self).handle == old(self).handle,
            final(self).toggle == old(self).toggle,
            final(self).clipboard_hotkey == old(self).clipboard_hotkey,
            final(self).shells@ == if old(self).shell_shortcuts().contains(shortcut) {
                old(self).shells@.update(
                    old(self).shell_shortcuts().index_of(shortcut),
                    (shortcut, shelly),
                )
            } else {
                old(self).shells@.push((shortcut, shelly))
            },
    {
        let count: usize = self.shells.len();
        for i in 0..count
            invariant
                *self == *old(self),
                count == self.shells@.len(),
                self.wf(),
                forall|j: int| 0 <= j < i ==> #[trigger] self.shell_shortcuts()[j] != shortcut,
        {
            if self.shells[i].0 == shortcut {
                assert(self.shell_shortcuts()[i as int] == shortcut);
                assert(self.shell_shortcuts().contains(shortcut));
                self.shells.set(i, (shortcut, shelly));
                assert(self.shell_shortcuts() =~= old(self).shell_shortcuts());
                return;
            }
            assert(self.shell_shortcuts()[i as int] != shortcut);
        }
        self.shells.push((shortcut, shelly));
        assert(self.shell_shortcuts() =~= old(self).shell_shortcuts().push(shortcut));
    }

    /// Every shortcut that does something.
    pub fn all_hotkeys(&self) -> (hotkeys: Vec<Shortcut>)
        ensures
            hotkeys@ == seq![self.toggle, self.clipboard_hotkey] + self.shell_shortcuts(),
    {
        let mut hotkeys: Vec<Shortcut> = Vec::new();
        hotkeys.push(self.toggle);
        hotkeys.push(self.clipboard_hotkey);
        for i in 0..self.shells.len()
            invariant
                hotkeys@ == seq![self.toggle, self.clipboard_hotkey]
                    + self.shell_shortcuts().take(i as int),
        {
            hotkeys.push(self.shells[i].0);
            assert(self.shell_shortcuts().take(i + 1) =~= self.shell_shortcuts().take(
                i as int,
            ).push(self.shells@[i as int].0));
        }
        assert(self.shell_shortcuts().take(self.shells@.len() as int) =~= self.shell_shortcuts());
        hotkeys
    }
}

/// A shortcut does something exactly if it shows the window, opens the clipboard
/// history or runs a shell command.
pub proof fn law_hotkeys_are_complete(hotkeys: &Hotkeys, shortcut: Shortcut)
    ensures
        (seq![hotkeys.toggle, hotkeys.clipboard_hotkey] + hotkeys.shell_shortcuts()).contains(
            shortcut,
        ) <==> {
            ||| shortcut == hotkeys.toggle
            ||| shortcut == hotkeys.clipboard_hotkey
            ||| hotkeys.shell_shortcuts().contains(shortcut)
        },
{
    let all = seq![hotkeys.toggle, hotkeys.clipboard_hotkey] + hotkeys.shell_shortcuts();
    assert(all[0] == hotkeys.toggle);
    assert(all[1] == hotkeys.clipboard_hotkey);
    if hotkeys.shell_shortcuts().contains(shortcut) {
        let i = hotkeys.shell_shortcuts().index_of(shortcut);
        assert(all[i + 2] == shortcut);
    }
    if all.contains(shortcut) {
        let i = all.index_of(shortcut);
        if i >= 2 {
            assert(hotkeys.shell_shortcuts()[i - 2] == shortcut);
        }
    }
}

/// The shortcuts of the shell commands are those that stand beside them, one for
/// one.
pub proof fn law_shell_shortcuts_stand_beside_the_commands(hotkeys: &Hotkeys, i: int)
    ensures
        hotkeys.shell_shortcuts().len() == hotkeys.shells@.len(),
        0 <= i < hotkeys.shells@.len() ==> hotkeys.shell_shortcuts()[i] == hotkeys.shells@[i].0,
{
}

} // verus!
