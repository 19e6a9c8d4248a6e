//! The command palette (Ctrl+P): the commands it offers, in the order they are presented —
//! the managers and their saved documents, the curated actions, the files of the active pane,
//! the recent folders, the favorites, the themes, and the settings.
use vstd::prelude::*;
use crate::actions::Action;
use crate::text::concat;

verus! {

/// The group a command belongs to.
#[derive(Clone, Copy, Debug, PartialEq, Eq, Structural)]
pub enum CommandCategory {
    Action,
    File,
    Recent,
    Favorite,
    Theme,
    Config,
}

/// What running a command does.
#[derive(Clone, Debug, PartialEq, Eq)]
pub enum CommandPayload {
    Recipes,
    LoadRecipe(String),
    ComparisonPoints,
    SavedQueries,
    LoadQuery(String),
    TaskSpaces,
    PrepareDelivery,
    Action(Action),
    /// Focus the row at this view position of the active pane.
    FocusEntry(usize),
    Navigate(String),
    Theme(String),
    OpenConfig,
}

/// A palette command.
#[derive(Clone, Debug, PartialEq, Eq)]
pub struct Command {
    pub label: String,
    pub category: CommandCategory,
    pub shortcut: String,
    pub payload: CommandPayload,
}

/// The curated actions, in the order the palette presents them (navigation details such as
/// moving the focus are left out).
pub open spec fn curated() -> Seq<Action> {
    seq![
        Action::RunAsAdministrator,
        Action::ComparePanels,
        Action::Copy,
        Action::Cut,
        Action::Paste,
        Action::PasteHistory,
        Action::Rename,
        Action::BatchRename,
        Action::NewFile,
        Action::NewDir,
        Action::ComputeSize,
        Action::Refresh,
        Action::Find,
        Action::Undo,
        Action::GoUp,
        Action::GoBack,
        Action::GoForward,
        Action::GoHome,
        Action::SwitchPane,
        Action::ToggleMaximizePane,
        Action::CopyToOther,
        Action::MoveToOther,
        Action::SelectAll,
        Action::Help,
        Action::EditPath,
    ]
}

/// The curated actions (see `curated`).
pub fn curated_actions() -> (r: Vec<Action>)
    ensures
        r@ == curated(),
{
    let r = vec![
        Action::RunAsAdministrator,
        Action::ComparePanels,
        Action::Copy,
        Action::Cut,
        Action::Paste,
        Action::PasteHistory,
        Action::Rename,
        Action::BatchRename,
        Action::NewFile,
        Action::NewDir,
        Action::ComputeSize,
        Action::Refresh,
        Action::Find,
        Action::Undo,
        Action::GoUp,
        Action::GoBack,
        Action::GoForward,
        Action::GoHome,
        Action::SwitchPane,
        Action::ToggleMaximizePane,
        Action::CopyToOther,
        Action::MoveToOther,
        Action::SelectAll,
        Action::Help,
        Action::EditPath,
    ];
    assert(r@ =~= curated());
    r
}

/// What the palette is built from, already localized: the titles of the managers, the label
/// that opens a saved recipe or query and the saved ones as (file stem, path), the labels and
/// shortcuts of the curated actions (in the order of `curated`), the names of the active pane's
/// rows in view order, the recent folders and favorites as (label, path), the theme prefix and
/// the themes as (readable name, id), and the label that opens the settings.
pub struct PaletteInput {
    pub recipes_title: String,
    pub recipe_open: String,
    pub recipes: Vec<(String, String)>,
    pub points_title: String,
    pub queries_title: String,
    pub query_load: String,
    pub queries: Vec<(String, String)>,
    pub spaces_title: String,
    pub delivery_title: String,
    pub curated: Vec<(String, String)>,
    pub files: Vec<String>,
    pub recents: Vec<(String, String)>,
    pub favorites: Vec<(String, String)>,
    pub theme_prefix: String,
    pub themes: Vec<(String, String)>,
    pub config_label: String,
}

/// What a command looks like to a reader: label, category, shortcut, payload.
pub type CommandView = (Seq<char>, CommandCategory, Seq<char>, CommandPayload);

/// The view of one command.
pub open spec fn command_view(c: Command) -> CommandView {
    (c.label@, c.category, c.shortcut@, c.payload)
}

/// The views of a list of commands.
pub open spec fn command_views(s: Seq<Command>) -> Seq<CommandView> {
    s.map_values(|c: Command| command_view(c))
}

/// The payload of a listed document or target: 0 a recipe, 1 a query, 2 a folder, else a theme.
pub open spec fn pair_payload(kind: u8, target: String) -> CommandPayload {
    if kind == 0 {
        CommandPayload::LoadRecipe(target)
    } else if kind == 1 {
        CommandPayload::LoadQuery(target)
    } else if kind == 2 {
        CommandPayload::Navigate(target)
    } else {
        CommandPayload::Theme(target)
    }
}

/// The command for a (name, target) pair: the prefix and the name as label, no shortcut.
pub open spec fn pair_entry(prefix: Seq<char>, category: CommandCategory, kind: u8, p: (String, String)) -> CommandView {
    (prefix + p.0@, category, Seq::empty(), pair_payload(kind, p.1))
}

/// The commands for a list of (name, target) pairs, in order.
pub open spec fn pair_entries(
    prefix: Seq<char>,
    category: CommandCategory,
    kind: u8,
    pairs: Seq<(String, String)>,
) -> Seq<CommandView> {
    pairs.map_values(|p: (String, String)| pair_entry(prefix, category, kind, p))
}

/// The curated actions with their localized labels and shortcuts.
pub open spec fn curated_entries(labels: Seq<(String, String)>) -> Seq<CommandView> {
    Seq::new(labels.len(), |k: int| (labels[k].0@, CommandCategory::Action, labels[k].1@, CommandPayload::Action(curated()[k])))
}

/// The rows of the active pane: each focuses its view position.
pub open spec fn file_entries(files: Seq<String>) -> Seq<CommandView> {
    Seq::new(files.len(), |k: int| (files[k]@, CommandCategory::File, Seq::empty(), CommandPayload::FocusEntry(k as usize)))
}

/// A command with a label only.
pub open spec fn titled(label: Seq<char>, category: CommandCategory, payload: CommandPayload) -> CommandView {
    (label, category, Seq::empty(), payload)
}

/// The palette, in the order presented (see the module's description). A saved recipe reads
/// "<open>: <stem>", a saved query "<load>: <stem>", a theme "<prefix><name>".
pub open spec fn palette_spec(i: PaletteInput) -> Seq<CommandView> {
    seq![titled(i.recipes_title@, CommandCategory::Action, CommandPayload::Recipes)]
        + pair_entries(i.recipe_open@ + ": "@, CommandCategory::Action, 0, i.recipes@)
        + seq![titled(i.points_title@, CommandCategory::Action, CommandPayload::ComparisonPoints)]
        + seq![titled(i.queries_title@, CommandCategory::Action, CommandPayload::SavedQueries)]
        + pair_entries(i.query_load@ + ": "@, CommandCategory::Action, 1, i.queries@)
        + seq![titled(i.spaces_title@, CommandCategory::Action, CommandPayload::TaskSpaces)]
        + seq![titled(i.delivery_title@, CommandCategory::Action, CommandPayload::PrepareDelivery)]
        + curated_entries(i.curated@)
        + file_entries(i.files@)
        + pair_entries(Seq::empty(), CommandCategory::Recent, 2, i.recents@)
        + pair_entries(Seq::empty(), CommandCategory::Favorite, 2, i.favorites@)
        + pair_entries(i.theme_prefix@, CommandCategory::Theme, 3, i.themes@)
        + seq![titled(i.config_label@, CommandCategory::Config, CommandPayload::OpenConfig)]
}

proof fn lemma_views_push(s: Seq<Command>, c: Command)
    ensures
        command_views(s.push(c)) == command_views(s).push(command_view(c)),
{
    assert(command_views(s.push(c)) =~= command_views(s).push(command_view(c)));
}

fn push_cmd(out: &mut Vec<Command>, label: String, category: CommandCategory, shortcut: String, payload: CommandPayload)
    ensures
        command_views(final(out)@) == command_views(old(out)@).push((label@, category, shortcut@, payload)),
{
    let ghost before = out@;
    let c = Command { label, category, shortcut, payload };
    out.push(c);
    proof {
        lemma_views_push(before, c);
    }
}

fn push_pairs(out: &mut Vec<Command>, prefix: &str, pairs: &Vec<(String, String)>, category: CommandCategory, kind: u8)
    ensures
        command_views(final(out)@) == command_views(old(out)@) + pair_entries(prefix@, category, kind, pairs@),
{
    let ghost start = command_views(out@);
    let mut i: usize = 0;
    while i < pairs.len()
        invariant
            i <= pairs.len(),
            command_views(out@) == start + pair_entries(prefix@, category, kind, pairs@.take(i as int)),
        decreases pairs.len() - i,
    {
        let ghost before = command_views(out@);
        let label = concat(prefix, &pairs[i].0);
        let target = pairs[i].1.clone();
        let payload = if kind == 0 {
            CommandPayload::LoadRecipe(target)
        } else if kind == 1 {
            CommandPayload::LoadQuery(target)
        } else if kind == 2 {
            CommandPayload::Navigate(target)
        } else {
            CommandPayload::Theme(target)
        };
        push_cmd(out, label, category, String::new(), payload);
        proof {
            let ghost p = pairs@[i as int];
            assert(target == p.1);
            assert(pair_entries(prefix@, category, kind, pairs@.take(i + 1)) =~= pair_entries(
                prefix@,
                category,
                kind,
                pairs@.take(i as int),
            ).push(pair_entry(prefix@, category, kind, p)));
        }
        i = i + 1;
    }
    assert(pairs@.take(pairs.len() as int) == pairs@);
}

fn push_curated(out: &mut Vec<Command>, labels: &Vec<(String, String)>)
    requires
        labels.len() == curated().len(),
    ensures
        command_views(final(out)@) == command_views(old(out)@) + curated_entries(labels@),
{
    let actions = curated_actions();
    let ghost start = command_views(out@);
    let mut i: usize = 0;
    while i < labels.len()
        invariant
            i <= labels.len(),
            labels.len() == curated().len(),
            actions@ == curated(),
            command_views(out@) == start + curated_entries(labels@.take(i as int)),
        decreases labels.len() - i,
    {
        let label = labels[i].0.clone();
        let shortcut = labels[i].1.clone();
        push_cmd(out, label, CommandCategory::Action, shortcut, CommandPayload::Action(actions[i]));
        assert(curated_entries(labels@.take(i + 1)) =~= curated_entries(labels@.take(i as int)).push(
            (labels@[i as int].0@, CommandCategory::Action, labels@[i as int].1@, CommandPayload::Action(curated()[i as int])),
        ));
        i = i + 1;
    }
    assert(labels@.take(labels.len() as int) == labels@);
}

fn push_files(out: &mut Vec<Command>, files: &Vec<String>)
    ensures
        command_views(final(out)@) == command_views(old(out)@) + file_entries(files@),
{
    let ghost start = command_views(out@);
    let mut i: usize = 0;
    while i < files.len()
        invariant
            i <= files.len(),
            command_views(out@) == start + file_entries(files@.take(i as int)),
        decreases files.len() - i,
    {
        push_cmd(out, files[i].clone(), CommandCategory::File, String::new(), CommandPayload::FocusEntry(i));
        assert(file_entries(files@.take(i + 1)) =~= file_entries(files@.take(i as int)).push(
            (files@[i as int]@, CommandCategory::File, Seq::empty(), CommandPayload::FocusEntry(i)),
        ));
        i = i + 1;
    }
    assert(files@.take(files.len() as int) == files@);
}

/// The palette's commands, in the order presented (`build_palette_commands`).
pub fn build_palette(input: &PaletteInput) -> (r: Vec<Command>)
    requires
        input.curated.len() == curated().len(),
    ensures
        command_views(r@) == palette_spec(*input),
{
    let mut out: Vec<Command> = Vec::new();
    assert(command_views(out@) =~= Seq::empty());
    push_cmd(&mut out, input.recipes_title.clone(), CommandCategory::Action, String::new(), CommandPayload::Recipes);
    let recipe_prefix = concat(&input.recipe_open, ": ");
    push_pairs(&mut out, &recipe_prefix, &input.recipes, CommandCategory::Action, 0);
    push_cmd(&mut out, input.points_title.clone(), CommandCategory::Action, String::new(), CommandPayload::ComparisonPoints);
    push_cmd(&mut out, input.queries_title.clone(), CommandCategory::Action, String::new(), CommandPayload::SavedQueries);
    let query_prefix = concat(&input.query_load, ": ");
    push_pairs(&mut out, &query_prefix, &input.queries, CommandCategory::Action, 1);
    push_cmd(&mut out, input.spaces_title.clone(), CommandCategory::Action, String::new(), CommandPayload::TaskSpaces);
    push_cmd(&mut out, input.delivery_title.clone(), CommandCategory::Action, String::new(), CommandPayload::PrepareDelivery);
    push_curated(&mut out, &input.curated);
    push_files(&mut out, &input.files);
    push_pairs(&mut out, "", &input.recents, CommandCategory::Recent, 2);
    push_pairs(&mut out, "", &input.favorites, CommandCategory::Favorite, 2);
    push_pairs(&mut out, &input.theme_prefix, &input.themes, CommandCategory::Theme, 3);
    push_cmd(&mut out, input.config_label.clone(), CommandCategory::Config, String::new(), CommandPayload::OpenConfig);
    proof {
        reveal_strlit("");
        assert(""@ =~= Seq::<char>::empty());
    }
    assert(command_views(out@) =~= palette_spec(*input));
    out
}

fn copy_payload(p: &CommandPayload) -> (r: CommandPayload)
    ensures
        r == *p,
{
    match p {
        CommandPayload::Recipes => CommandPayload::Recipes,
        CommandPayload::LoadRecipe(path) => CommandPayload::LoadRecipe(path.clone()),
        CommandPayload::ComparisonPoints => CommandPayload::ComparisonPoints,
        CommandPayload::SavedQueries => CommandPayload::SavedQueries,
        CommandPayload::LoadQuery(path) => CommandPayload::LoadQuery(path.clone()),
        CommandPayload::TaskSpaces => CommandPayload::TaskSpaces,
        CommandPayload::PrepareDelivery => CommandPayload::PrepareDelivery,
        CommandPayload::Action(a) => CommandPayload::Action(*a),
        CommandPayload::FocusEntry(k) => CommandPayload::FocusEntry(*k),
        CommandPayload::Navigate(path) => CommandPayload::Navigate(path.clone()),
        CommandPayload::Theme(id) => CommandPayload::Theme(id.clone()),
        CommandPayload::OpenConfig => CommandPayload::OpenConfig,
    }
}

/// What running the command at `index` of the palette does: its payload, or nothing when no
/// command has that index (`execute_palette_command`).
pub fn palette_payload(commands: &Vec<Command>, index: usize) -> (r: Option<CommandPayload>)
    ensures
        r == (if index < commands@.len() {
            Some(commands@[index as int].payload)
        } else {
            None
        }),
{
    if index < commands.len() {
        Some(copy_payload(&commands[index].payload))
    } else {
        None
    }
}

} // verus!
