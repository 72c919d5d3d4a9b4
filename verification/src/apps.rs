//! The entries that a search can find, and how modes become entries.
use crate::message::{Function, Message};
use crate::string_map::StringMap;
use crate::text::{ascii_upper, capitalize, is_white_space, trim, trimmed};
use crate::text_laws::{blank, law_trimming_takes_off_white_space};
use vstd::prelude::*;

verus! {

/// A picture that the window draws beside an entry.
#[derive(Clone, Copy, Debug, PartialEq, Eq, Structural)]
pub enum Icon {
    /// The launcher's own icon.
    Rustcast,
    /// A picture that the window has loaded, by the number it keeps it under.
    Loaded(u64),
}

/// What happens when the user picks an entry.
#[derive(Debug)]
pub enum AppCommand {
    Function(Function),
    Message(Message),
}

impl Clone for AppCommand {
    fn clone(&self) -> (copy: Self)
        ensures
            copy == *self,
    {
        match self {
            AppCommand::Function(function) => AppCommand::Function(function.clone()),
            AppCommand::Message(message) => AppCommand::Message(message.clone()),
        }
    }
}

/// An entry that a search can find.
#[derive(Debug)]
pub struct App {
    /// How often the user picked the entry; -1 marks a favourite.
    pub ranking: i32,
    pub open_command: AppCommand,
    pub desc: String,
    pub icons: Option<Icon>,
    pub display_name: String,
    /// The name that a search looks at.
    pub search_name: String,
}

impl Clone for App {
    fn clone(&self) -> (copy: Self)
        ensures
            copy == *self,
    {
        App {
            ranking: self.ranking,
            open_command: self.open_command.clone(),
            desc: self.desc.clone(),
            icons: self.icons,
            display_name: self.display_name.clone(),
            search_name: self.search_name.clone(),
        }
    }
}

/// A trait to define that a value can be converted to an app.
pub trait ToApp {
    /// Convert self into an app.
    fn to_app(&self) -> App;
}

/// A trait to define that a value that contains several elements can be
/// converted to several apps.
pub trait ToApps {
    /// The value can be converted.
    spec fn has_apps(&self) -> bool;

    /// Convert self into a list of apps.
    fn to_apps(&self) -> Vec<App>
        requires
            self.has_apps(),
    ;
}

/// The text begins with a character that takes one byte.
pub open spec fn begins_ascii(s: Seq<char>) -> bool {
    s.len() > 0 && s[0] <= '\x7f'
}

/// `app` is the entry that switches to the mode `name`.
pub open spec fn is_mode_app(app: App, name: Seq<char>) -> bool {
    &&& app.ranking == 0
    &&& app.open_command matches AppCommand::Message(Message::SwitchMode(mode)) && mode@
        == trimmed(name)
    &&& app.desc@ == "Switch Modes"@
    &&& app.icons == Some(Icon::Rustcast)
    &&& app.display_name@ == seq![ascii_upper(name[0])] + name.skip(1) + " Mode"@
    &&& app.search_name@ == name
}

/// `app` is the entry that goes back to the default mode.
pub open spec fn is_default_mode_app(app: App) -> bool {
    &&& app.ranking == 0
    &&& app.open_command matches AppCommand::Message(Message::SwitchMode(mode)) && mode@
        == "Default"@
    &&& app.desc@ == "Change mode"@
    &&& app.icons == Some(Icon::Rustcast)
    &&& app.display_name@ == "Default mode"@
    &&& app.search_name@ == "default"@
}

/// `apps` has one entry for each of the modes `names`, in their order, and
/// behind them the entry for the default mode where no mode has that name.
pub open spec fn lists_modes(apps: Seq<App>, names: Seq<Seq<char>>) -> bool {
    &&& apps.len() == names.len() + if names.contains("default"@) {
        0int
    } else {
        1int
    }
    &&& forall|i: int|
        0 <= i < names.len() ==> is_mode_app(#[trigger] apps[i], names[i])
    &&& !names.contains("default"@) ==> is_default_mode_app(apps[names.len() as int])
}

/// The entry that switches to the mode `name`.
fn mode_app(name: &str) -> (app: App)
    requires
        begins_ascii(name@),
    ensures
        is_mode_app(app, name@),
{
    let display_name = capitalize(name).concat(" Mode");
    App {
        ranking: 0,
        open_command: AppCommand::Message(Message::SwitchMode(trim(name).to_owned())),
        desc: "Switch Modes".to_owned(),
        icons: Some(Icon::Rustcast),
        display_name,
        search_name: name.to_owned(),
    }
}

/// The modes are a map from a mode's name to the shell command that it runs.
impl ToApps for StringMap<String> {
    open spec fn has_apps(&self) -> bool {
        &&& self.wf()
        &&& forall|i: int| 0 <= i < self.keys().len() ==> begins_ascii(#[trigger] self.keys()[i])
    }

    fn to_apps(&self) -> (apps: Vec<App>)
        ensures
            lists_modes(apps@, self.keys()),
    {
        let entries = self.as_entries();
        let mut apps: Vec<App> = Vec::new();
        for i in 0..entries.len()
            invariant
                self.has_apps(),
                entries@ == self.entries(),
                apps@.len() == i,
                forall|j: int| 0 <= j < i ==> is_mode_app(#[trigger] apps@[j], self.keys()[j]),
        {
            assert(begins_ascii(self.keys()[i as int]));
            apps.push(mode_app(entries[i].0.as_str()));
        }
        if self.get("default").is_none() {
            apps.push(
                App {
                    ranking: 0,
                    open_command: AppCommand::Message(Message::SwitchMode("Default".to_owned())),
                    desc: "Change mode".to_owned(),
                    icons: Some(Icon::Rustcast),
                    display_name: "Default mode".to_owned(),
                    search_name: "default".to_owned(),
                },
            );
        }
        apps
    }
}

/// Whatever the modes are, exactly one entry of their list is found under the
/// name "default".
pub proof fn law_one_default_mode(apps: Seq<App>, names: Seq<Seq<char>>)
    requires
        names.no_duplicates(),
        lists_modes(apps, names),
    ensures
        exists|i: int|
            0 <= i < apps.len() && (#[trigger] apps[i]).search_name@ == "default"@ && forall|j: int|
                0 <= j < apps.len() && (#[trigger] apps[j]).search_name@ == "default"@ ==> j == i,
{
    let i = if names.contains("default"@) {
        names.index_of("default"@)
    } else {
        names.len() as int
    };
    assert(apps[i].search_name@ == "default"@);
    assert forall|j: int|
        0 <= j < apps.len() && (#[trigger] apps[j]).search_name@ == "default"@ implies j == i by {
        if j < names.len() {
            assert(is_mode_app(apps[j], names[j]));
            assert(names.contains(names[j]));
        }
    }
}

/// Every mode has exactly one entry in the list, the one found under its name.
pub proof fn law_every_mode_listed(apps: Seq<App>, names: Seq<Seq<char>>, name: Seq<char>)
    requires
        names.no_duplicates(),
        lists_modes(apps, names),
        names.contains(name),
    ensures
        exists|i: int|
            0 <= i < apps.len() && is_mode_app(#[trigger] apps[i], name) && forall|j: int|
                0 <= j < apps.len() && (#[trigger] apps[j]).search_name@ == name ==> j == i,
{
    let i = names.index_of(name);
    assert(is_mode_app(apps[i], name));
    assert forall|j: int|
        0 <= j < apps.len() && (#[trigger] apps[j]).search_name@ == name implies j == i by {
        if j < names.len() {
            assert(is_mode_app(apps[j], names[j]));
        }
    }
}

/// The entry of a mode is found under the mode's name, shows it with a large
/// first letter and the word "Mode", and switches to the name without the white
/// space around it.
pub proof fn law_mode_entries_say_the_mode(apps: Seq<App>, names: Seq<Seq<char>>, i: int, k: int)
    requires
        lists_modes(apps, names),
        0 <= i < names.len(),
        names[i].len() > 0,
    ensures
        apps[i].search_name@ == names[i],
        apps[i].ranking == 0,
        apps[i].desc@ == "Switch Modes"@,
        apps[i].icons == Some(Icon::Rustcast),
        apps[i].display_name@.len() == names[i].len() + 5,
        0 < k < names[i].len() ==> apps[i].display_name@[k] == names[i][k],
        'a' <= names[i][0] && names[i][0] <= 'z' ==> apps[i].display_name@[0] as int
            == names[i][0] as int - 32,
        names[i][0] < 'a' || 'z' < names[i][0] ==> apps[i].display_name@[0] == names[i][0],
        apps[i].display_name@.skip(names[i].len() as int) == seq![' ', 'M', 'o', 'd', 'e'],
        apps[i].open_command matches AppCommand::Message(Message::SwitchMode(mode)) && {
            &&& exists|a: Seq<char>, b: Seq<char>|
                names[i] == #[trigger] (a + mode@ + b) && blank(a) && blank(b)
            &&& mode@.len() > 0 ==> !is_white_space(mode@.first()) && !is_white_space(mode@.last())
        },
{
    reveal_strlit(" Mode");
    assert(is_mode_app(apps[i], names[i]));
    lemma_upper(names[i][0]);
    law_trimming_takes_off_white_space(names[i]);
    assert(apps[i].display_name@.skip(names[i].len() as int) =~= seq![' ', 'M', 'o', 'd', 'e']);
}

proof fn lemma_upper(c: char)
    ensures
        'a' <= c && c <= 'z' ==> ascii_upper(c) as int == c as int - 32,
        c < 'a' || 'z' < c ==> ascii_upper(c) == c,
{
}

/// A list of modes has an entry for each mode, and one more exactly if no mode is
/// named "default"; that one goes back to the default mode.
pub proof fn law_default_mode_is_added_when_missing(apps: Seq<App>, names: Seq<Seq<char>>)
    requires
        lists_modes(apps, names),
    ensures
        apps.len() == names.len() || apps.len() == names.len() + 1,
        apps.len() == names.len() <==> names.contains("default"@),
        apps.len() > names.len() ==> apps.last().search_name@ == "default"@
            && apps.last().display_name@ == "Default mode"@ && apps.last().desc@ == "Change mode"@
            && apps.last().ranking == 0 && apps.last().icons == Some(Icon::Rustcast) && (apps.last().open_command matches AppCommand::Message(
            Message::SwitchMode(mode),
        ) && mode@ == "Default"@),
{
}

} // verus!
