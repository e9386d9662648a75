//! The editor's mode system: major and minor modes, mode lines,
//! font-lock rules, and user customization records.
//!
//! The registry keeps it all in association lists with unique keys, so
//! every lookup and update has an exact contract.

use vstd::prelude::*;
use vstd::string::StringExecFns;
use crate::chars::{spec_decimal, spec_ends_with, str_ends_with, str_eq, string_push_str,
    u64_to_decimal};

verus! {

/// A host-language value carried by mode definitions and custom
/// variables.
#[derive(Debug, Clone, PartialEq)]
pub enum Value {
    /// The nil value.
    Nil,
    /// The canonical true value.
    True,
    /// An integer.
    Int(i64),
    /// A string.
    Str(String),
    /// A symbol, by name.
    Symbol(String),
}

impl Value {
    /// Make a symbol value.
    pub fn symbol(name: &str) -> (r: Value)
        ensures
            r matches Value::Symbol(s) && s@ == name@,
    {
        Value::Symbol(name.to_owned())
    }

    /// Everything but nil is true.
    pub fn is_truthy(&self) -> (r: bool)
        ensures
            r == !(self is Nil),
    {
        !matches!(self, Value::Nil)
    }
}

/// One font-lock highlighting rule.
#[derive(Debug, Clone, PartialEq)]
pub struct FontLockKeyword {
    /// Regex pattern to match.
    pub pattern: String,
    /// Face name to apply.
    pub face: String,
    /// Regex capture group (0 is the whole match).
    pub group: usize,
    /// Whether to override existing fontification.
    pub override_: bool,
    /// Do not fail when the group does not match.
    pub laxmatch: bool,
}

/// Font-lock decoration level.
#[derive(Debug, Clone, Copy, PartialEq, Eq, Structural)]
pub enum FontLockLevel {
    /// Minimal highlighting.
    Level1,
    /// Low highlighting.
    Level2,
    /// Medium highlighting (the default).
    Level3,
    /// High highlighting.
    Level4,
}

impl Default for FontLockLevel {
    /// Medium highlighting is the default.
    fn default() -> (r: FontLockLevel)
        ensures
            r == FontLockLevel::Level3,
    {
        FontLockLevel::Level3
    }
}

/// Font-lock configuration of a mode.
#[derive(Debug, Clone, PartialEq)]
pub struct FontLockDefaults {
    /// Keyword rules of this mode.
    pub keywords: Vec<FontLockKeyword>,
    /// Case-insensitive pattern matching.
    pub case_fold: bool,
    /// Optional syntax table name.
    pub syntax_table: Option<String>,
}

/// A major mode definition.
#[derive(Debug, Clone, PartialEq)]
pub struct MajorMode {
    /// Symbol name.
    pub name: String,
    /// Human-readable name.
    pub pretty_name: String,
    /// Parent mode this mode derives from, if any.
    pub parent: Option<String>,
    /// Hook variable name.
    pub mode_hook: String,
    /// Keymap name, if any.
    pub keymap_name: Option<String>,
    /// Syntax table name, if any.
    pub syntax_table_name: Option<String>,
    /// Abbrev table name, if any.
    pub abbrev_table_name: Option<String>,
    /// Font-lock defaults, if any.
    pub font_lock: Option<FontLockDefaults>,
    /// Body evaluated when the mode is entered.
    pub body: Option<Value>,
}

/// A minor mode definition.
#[derive(Debug, Clone, PartialEq)]
pub struct MinorMode {
    /// Symbol name.
    pub name: String,
    /// Mode-line lighter, if any.
    pub lighter: Option<String>,
    /// Keymap name, if any.
    pub keymap_name: Option<String>,
    /// The mode is global.
    pub global: bool,
    /// Body evaluated when toggling.
    pub body: Option<Value>,
}

/// A customizable variable.
#[derive(Debug)]
pub struct CustomVariable {
    /// Variable name.
    pub name: String,
    /// Default value.
    pub default_value: Value,
    /// Docstring, if any.
    pub doc: Option<String>,
    /// Type descriptor.
    pub type_: CustomType,
    /// Customization group, if any.
    pub group: Option<String>,
    /// Setter function name, if any.
    pub set_function: Option<String>,
    /// Getter function name, if any.
    pub get_function: Option<String>,
    /// Display tag, if any.
    pub tag: Option<String>,
}

/// Type descriptor of a customizable variable.
#[derive(Debug)]
pub enum CustomType {
    Boolean,
    Integer,
    Float,
    Text,
    Symbol,
    Sexp,
    Choice(Vec<(String, Value)>),
    List(Box<CustomType>),
    Alist(Box<CustomType>, Box<CustomType>),
    Plist(Box<CustomType>, Box<CustomType>),
    Color,
    Face,
    File,
    Directory,
    Function,
    Variable,
    Hook,
    Coding,
}

/// A customization group.
#[derive(Debug, Clone, PartialEq)]
pub struct CustomGroup {
    /// Group name.
    pub name: String,
    /// Docstring, if any.
    pub doc: Option<String>,
    /// Parent group, if any.
    pub parent: Option<String>,
    /// Member variable or subgroup names.
    pub members: Vec<String>,
}

/// Index of the first string equal to `name` in a name sequence, or -1.
pub open spec fn spec_name_index(names: Seq<Seq<char>>, name: Seq<char>) -> int
    decreases names.len(),
{
    if names.len() == 0 {
        -1
    } else if names[0] == name {
        0
    } else {
        let rest = spec_name_index(names.drop_first(), name);
        if rest == -1 {
            -1
        } else {
            rest + 1
        }
    }
}

/// The name occurs in the sequence.
pub open spec fn spec_has_name(names: Seq<Seq<char>>, name: Seq<char>) -> bool {
    spec_name_index(names, name) >= 0
}

/// The first index holding the name, and only that index before it.
pub proof fn lemma_name_index(names: Seq<Seq<char>>, name: Seq<char>)
    ensures
        spec_name_index(names, name) >= -1,
        spec_name_index(names, name) >= 0 ==> 0 <= spec_name_index(names, name) < names.len()
            && names[spec_name_index(names, name)] == name,
        spec_name_index(names, name) == -1 ==> forall|i: int|
            0 <= i < names.len() ==> names[i] != name,
        forall|i: int|
            0 <= i < spec_name_index(names, name) ==> names[i] != name,
    decreases names.len(),
{
    if names.len() > 0 && names[0] != name {
        lemma_name_index(names.drop_first(), name);
        assert forall|i: int| 0 <= i < spec_name_index(names, name) implies names[i] != name by {
            if i > 0 {
                assert(names.drop_first()[i - 1] == names[i]);
            }
        }
        if spec_name_index(names, name) == -1 {
            assert(spec_name_index(names.drop_first(), name) == -1);
            assert forall|i: int| 0 <= i < names.len() implies names[i] != name by {
                if i > 0 {
                    assert(names.drop_first()[i - 1] == names[i]);
                    assert(names.drop_first()[i - 1] != name);
                }
            }
        }
    }
}

/// Index of the first pair keyed `key` in a key-value sequence, or -1.
pub open spec fn spec_key_index(pairs: Seq<(u64, Seq<char>)>, key: u64) -> int
    decreases pairs.len(),
{
    if pairs.len() == 0 {
        -1
    } else if pairs[0].0 == key {
        0
    } else {
        let rest = spec_key_index(pairs.drop_first(), key);
        if rest == -1 {
            -1
        } else {
            rest + 1
        }
    }
}

/// When a name is the first hit at `i`, the first index holding it is
/// `i`.
pub proof fn lemma_name_index_first(names: Seq<Seq<char>>, name: Seq<char>, i: int)
    requires
        0 <= i < names.len(),
        names[i] == name,
        forall|j: int| 0 <= j < i ==> names[j] != name,
    ensures
        spec_name_index(names, name) == i,
{
    lemma_name_index(names, name);
    let idx = spec_name_index(names, name);
    if idx == -1 {
    } else if idx < i {
    } else if idx > i {
        assert(names[i] != name);
    }
}

/// Central registry of all mode-related state.
#[derive(Debug)]
pub struct ModeRegistry {
    /// All registered major modes.
    pub major_modes: Vec<MajorMode>,
    /// All registered minor modes.
    pub minor_modes: Vec<MinorMode>,
    /// Active major mode per buffer.
    pub buffer_major_modes: Vec<(u64, String)>,
    /// Active buffer-local minor modes per buffer.
    pub buffer_minor_modes: Vec<(u64, Vec<String>)>,
    /// Globally active minor modes.
    pub global_minor_modes: Vec<String>,
    /// Filename pattern to mode name, for automatic mode selection.
    pub auto_mode_alist: Vec<(String, String)>,
    /// All registered custom variables.
    pub custom_variables: Vec<CustomVariable>,
    /// All registered custom groups.
    pub custom_groups: Vec<CustomGroup>,
}

impl ModeRegistry {
    /// The names of the registered major modes, in order.
    pub open spec fn spec_major_names(&self) -> Seq<Seq<char>> {
        self.major_modes@.map_values(|m: MajorMode| m.name@)
    }

    /// The names of the registered minor modes, in order.
    pub open spec fn spec_minor_names(&self) -> Seq<Seq<char>> {
        self.minor_modes@.map_values(|m: MinorMode| m.name@)
    }

    /// A major mode with this name is registered.
    pub open spec fn spec_has_major(&self, name: Seq<char>) -> bool {
        spec_has_name(self.spec_major_names(), name)
    }

    /// A minor mode with this name is registered.
    pub open spec fn spec_has_minor(&self, name: Seq<char>) -> bool {
        spec_has_name(self.spec_minor_names(), name)
    }

    /// The first registered major mode with this name.
    pub open spec fn spec_major_at(&self, name: Seq<char>) -> MajorMode {
        self.major_modes@[spec_name_index(self.spec_major_names(), name)]
    }

    /// The first registered minor mode with this name.
    pub open spec fn spec_minor_at(&self, name: Seq<char>) -> MinorMode {
        self.minor_modes@[spec_name_index(self.spec_minor_names(), name)]
    }

    /// The buffer-to-major-mode pairs, by name view.
    pub open spec fn spec_buffer_major_pairs(&self) -> Seq<(u64, Seq<char>)> {
        self.buffer_major_modes@.map_values(|p: (u64, String)| (p.0, p.1@))
    }

    /// The major mode name active in a buffer: the recorded one, or
    /// the fundamental mode.
    pub open spec fn spec_buffer_major(&self, buffer_id: u64) -> Seq<char> {
        let idx = spec_key_index(self.spec_buffer_major_pairs(), buffer_id);
        if idx >= 0 {
            self.spec_buffer_major_pairs()[idx].1
        } else {
            "fundamental-mode"@
        }
    }

    /// The buffer-local minor mode names of a buffer.
    pub open spec fn spec_buffer_minors(&self, buffer_id: u64) -> Seq<Seq<char>> {
        let pairs = self.buffer_minor_modes@.map_values(
            |p: (u64, Vec<String>)| (p.0, p.1@.map_values(|s: String| s@)),
        );
        let idx = spec_key_index_names(pairs, buffer_id);
        if idx >= 0 {
            pairs[idx].1
        } else {
            Seq::empty()
        }
    }

    /// The global minor mode names.
    pub open spec fn spec_global_minors(&self) -> Seq<Seq<char>> {
        self.global_minor_modes@.map_values(|s: String| s@)
    }

    /// A minor mode is active in a buffer: buffer-locally or globally.
    pub open spec fn spec_minor_active(&self, buffer_id: u64, name: Seq<char>) -> bool {
        spec_has_name(self.spec_buffer_minors(buffer_id), name) || spec_has_name(
            self.spec_global_minors(),
            name,
        )
    }

    /// The names of the registered custom variables.
    pub open spec fn spec_variable_names(&self) -> Seq<Seq<char>> {
        self.custom_variables@.map_values(|v: CustomVariable| v.name@)
    }

    /// The names of the registered custom groups.
    pub open spec fn spec_group_names(&self) -> Seq<Seq<char>> {
        self.custom_groups@.map_values(|g: CustomGroup| g.name@)
    }

    /// Find the index of a registered major mode by name.
    fn find_major(&self, name: &str) -> (r: Option<usize>)
        ensures
            r is Some <==> self.spec_has_major(name@),
            r matches Some(i) ==> i == spec_name_index(self.spec_major_names(), name@),
    {
        let ghost names = self.spec_major_names();
        let n = self.major_modes.len();
        let mut i: usize = 0;
        while i < n
            invariant
                i <= n,
                n == self.major_modes@.len(),
                names == self.spec_major_names(),
                forall|j: int| 0 <= j < i ==> names[j] != name@,
            decreases n - i,
        {
            if str_eq(self.major_modes[i].name.as_str(), name) {
                proof {
                    lemma_name_index_first(names, name@, i as int);
                }
                return Some(i);
            }
            i = i + 1;
        }
        proof {
            lemma_name_index(names, name@);
            if spec_name_index(names, name@) >= 0 {
                assert(names[spec_name_index(names, name@)] == name@);
            }
        }
        None
    }

    /// Find the index of a registered minor mode by name.
    fn find_minor(&self, name: &str) -> (r: Option<usize>)
        ensures
            r is Some <==> self.spec_has_minor(name@),
            r matches Some(i) ==> i == spec_name_index(self.spec_minor_names(), name@),
    {
        let ghost names = self.spec_minor_names();
        let n = self.minor_modes.len();
        let mut i: usize = 0;
        while i < n
            invariant
                i <= n,
                n == self.minor_modes@.len(),
                names == self.spec_minor_names(),
                forall|j: int| 0 <= j < i ==> names[j] != name@,
            decreases n - i,
        {
            if str_eq(self.minor_modes[i].name.as_str(), name) {
                proof {
                    lemma_name_index_first(names, name@, i as int);
                }
                return Some(i);
            }
            i = i + 1;
        }
        proof {
            lemma_name_index(names, name@);
            if spec_name_index(names, name@) >= 0 {
                assert(names[spec_name_index(names, name@)] == name@);
            }
        }
        None
    }
}

/// Index of the first pair keyed `key` in a keyed name-list sequence,
/// or -1.
pub open spec fn spec_key_index_names(pairs: Seq<(u64, Seq<Seq<char>>)>, key: u64) -> int
    decreases pairs.len(),
{
    if pairs.len() == 0 {
        -1
    } else if pairs[0].0 == key {
        0
    } else {
        let rest = spec_key_index_names(pairs.drop_first(), key);
        if rest == -1 {
            -1
        } else {
            rest + 1
        }
    }
}

/// First-hit characterization for keyed name-list sequences.
pub proof fn lemma_key_index_names(pairs: Seq<(u64, Seq<Seq<char>>)>, key: u64)
    ensures
        spec_key_index_names(pairs, key) >= -1,
        spec_key_index_names(pairs, key) >= 0 ==> spec_key_index_names(pairs, key) < pairs.len()
            && pairs[spec_key_index_names(pairs, key)].0 == key,
        spec_key_index_names(pairs, key) == -1 ==> forall|i: int|
            0 <= i < pairs.len() ==> (#[trigger] pairs[i]).0 != key,
        forall|i: int| 0 <= i < spec_key_index_names(pairs, key) ==> (#[trigger] pairs[i]).0 != key,
    decreases pairs.len(),
{
    if pairs.len() > 0 && pairs[0].0 != key {
        lemma_key_index_names(pairs.drop_first(), key);
        assert(spec_key_index_names(pairs.drop_first(), key) >= -1);
        assert forall|i: int|
            0 <= i < spec_key_index_names(pairs, key) implies (#[trigger] pairs[i]).0 != key by {
            if i > 0 {
                assert(pairs.drop_first()[i - 1] == pairs[i]);
            }
        }
        if spec_key_index_names(pairs, key) == -1 {
            assert(spec_key_index_names(pairs.drop_first(), key) == -1);
            assert forall|i: int| 0 <= i < pairs.len() implies (#[trigger] pairs[i]).0 != key by {
                if i > 0 {
                    assert(pairs.drop_first()[i - 1] == pairs[i]);
                    assert(pairs.drop_first()[i - 1].0 != key);
                }
            }
        }
    }
}

/// When a key is first hit at `i`, the first index holding it is `i`.
pub proof fn lemma_key_index_names_first(pairs: Seq<(u64, Seq<Seq<char>>)>, key: u64, i: int)
    requires
        0 <= i < pairs.len(),
        pairs[i].0 == key,
        forall|j: int| 0 <= j < i ==> (#[trigger] pairs[j]).0 != key,
    ensures
        spec_key_index_names(pairs, key) == i,
{
    lemma_key_index_names(pairs, key);
    let idx = spec_key_index_names(pairs, key);
    if idx > i {
        assert(pairs[i].0 != key);
    }
}

/// First-hit characterization for keyed name pairs.
pub proof fn lemma_key_index(pairs: Seq<(u64, Seq<char>)>, key: u64)
    ensures
        spec_key_index(pairs, key) >= -1,
        spec_key_index(pairs, key) >= 0 ==> spec_key_index(pairs, key) < pairs.len()
            && pairs[spec_key_index(pairs, key)].0 == key,
        spec_key_index(pairs, key) == -1 ==> forall|i: int|
            0 <= i < pairs.len() ==> (#[trigger] pairs[i]).0 != key,
        forall|i: int| 0 <= i < spec_key_index(pairs, key) ==> (#[trigger] pairs[i]).0 != key,
    decreases pairs.len(),
{
    if pairs.len() > 0 && pairs[0].0 != key {
        lemma_key_index(pairs.drop_first(), key);
        assert(spec_key_index(pairs.drop_first(), key) >= -1);
        assert forall|i: int|
            0 <= i < spec_key_index(pairs, key) implies (#[trigger] pairs[i]).0 != key by {
            if i > 0 {
                assert(pairs.drop_first()[i - 1] == pairs[i]);
            }
        }
        if spec_key_index(pairs, key) == -1 {
            assert(spec_key_index(pairs.drop_first(), key) == -1);
            assert forall|i: int| 0 <= i < pairs.len() implies (#[trigger] pairs[i]).0 != key by {
                if i > 0 {
                    assert(pairs.drop_first()[i - 1] == pairs[i]);
                    assert(pairs.drop_first()[i - 1].0 != key);
                }
            }
        }
    }
}

/// When a key is first hit at `i`, the first index holding it is `i`.
pub proof fn lemma_key_index_first(pairs: Seq<(u64, Seq<char>)>, key: u64, i: int)
    requires
        0 <= i < pairs.len(),
        pairs[i].0 == key,
        forall|j: int| 0 <= j < i ==> (#[trigger] pairs[j]).0 != key,
    ensures
        spec_key_index(pairs, key) == i,
{
    lemma_key_index(pairs, key);
    let idx = spec_key_index(pairs, key);
    if idx > i {
        assert(pairs[i].0 != key);
    }
}

impl ModeRegistry {
    /// Find the index of a buffer's major-mode record.
    fn find_buffer_major(&self, buffer_id: u64) -> (r: Option<usize>)
        ensures
            r is Some <==> spec_key_index(self.spec_buffer_major_pairs(), buffer_id) >= 0,
            r matches Some(i) ==> i == spec_key_index(self.spec_buffer_major_pairs(), buffer_id),
    {
        let ghost pairs = self.spec_buffer_major_pairs();
        let n = self.buffer_major_modes.len();
        let mut i: usize = 0;
        while i < n
            invariant
                i <= n,
                n == self.buffer_major_modes@.len(),
                pairs == self.spec_buffer_major_pairs(),
                forall|j: int| 0 <= j < i ==> (#[trigger] pairs[j]).0 != buffer_id,
            decreases n - i,
        {
            if self.buffer_major_modes[i].0 == buffer_id {
                proof {
                    lemma_key_index_first(pairs, buffer_id, i as int);
                }
                return Some(i);
            }
            i = i + 1;
        }
        proof {
            lemma_key_index(pairs, buffer_id);
            if spec_key_index(pairs, buffer_id) >= 0 {
                assert(pairs[spec_key_index(pairs, buffer_id)].0 == buffer_id);
            }
        }
        None
    }

    /// Find the index of a buffer's minor-mode list.
    fn find_buffer_minors(&self, buffer_id: u64) -> (r: Option<usize>)
        ensures
            ({
                let pairs = self.buffer_minor_modes@.map_values(
                    |p: (u64, Vec<String>)| (p.0, p.1@.map_values(|t: String| t@)),
                );
                &&& (r is Some <==> spec_key_index_names(pairs, buffer_id) >= 0)
                &&& (r matches Some(i) ==> i == spec_key_index_names(pairs, buffer_id))
            }),
    {
        let ghost pairs = self.buffer_minor_modes@.map_values(
            |p: (u64, Vec<String>)| (p.0, p.1@.map_values(|t: String| t@)),
        );
        let n = self.buffer_minor_modes.len();
        let mut i: usize = 0;
        while i < n
            invariant
                i <= n,
                n == self.buffer_minor_modes@.len(),
                pairs == self.buffer_minor_modes@.map_values(
                    |p: (u64, Vec<String>)| (p.0, p.1@.map_values(|t: String| t@)),
                ),
                forall|j: int| 0 <= j < i ==> (#[trigger] pairs[j]).0 != buffer_id,
            decreases n - i,
        {
            if self.buffer_minor_modes[i].0 == buffer_id {
                proof {
                    lemma_key_index_names_first(pairs, buffer_id, i as int);
                }
                return Some(i);
            }
            i = i + 1;
        }
        proof {
            lemma_key_index_names(pairs, buffer_id);
            if spec_key_index_names(pairs, buffer_id) >= 0 {
                assert(pairs[spec_key_index_names(pairs, buffer_id)].0 == buffer_id);
            }
        }
        None
    }

    /// Create a registry with the fundamental mode pre-registered.
    pub fn new() -> (r: ModeRegistry)
        ensures
            r.major_modes@.len() == 1,
            r.spec_has_major("fundamental-mode"@),
            r.spec_major_at("fundamental-mode"@).name@ == "fundamental-mode"@,
            r.spec_major_at("fundamental-mode"@).pretty_name@ == "Fundamental"@,
            r.spec_major_at("fundamental-mode"@).parent is None,
            r.spec_major_at("fundamental-mode"@).font_lock is None,
            r.minor_modes@.len() == 0,
            r.buffer_major_modes@.len() == 0,
            r.buffer_minor_modes@.len() == 0,
            r.global_minor_modes@.len() == 0,
            r.auto_mode_alist@.len() == 0,
            r.custom_variables@.len() == 0,
            r.custom_groups@.len() == 0,
    {
        let mut reg = ModeRegistry {
            major_modes: Vec::new(),
            minor_modes: Vec::new(),
            buffer_major_modes: Vec::new(),
            buffer_minor_modes: Vec::new(),
            global_minor_modes: Vec::new(),
            auto_mode_alist: Vec::new(),
            custom_variables: Vec::new(),
            custom_groups: Vec::new(),
        };
        reg.register_fundamental_mode();
        reg
    }

    /// Pre-register the fundamental mode.
    pub fn register_fundamental_mode(&mut self)
        ensures
            final (self).spec_has_major("fundamental-mode"@),
            final (self).spec_major_at("fundamental-mode"@).name@ == "fundamental-mode"@,
            final (self).spec_major_at("fundamental-mode"@).pretty_name@ == "Fundamental"@,
            final (self).spec_major_at("fundamental-mode"@).parent is None,
            final (self).spec_major_at("fundamental-mode"@).font_lock is None,
            final (self).major_modes@.len() == old(self).major_modes@.len() + (if old(
                self,
            ).spec_has_major("fundamental-mode"@) {
                0int
            } else {
                1int
            }),
            final (self).minor_modes@ == old(self).minor_modes@,
            final (self).buffer_major_modes@ == old(self).buffer_major_modes@,
            final (self).buffer_minor_modes@ == old(self).buffer_minor_modes@,
            final (self).global_minor_modes@ == old(self).global_minor_modes@,
            final (self).auto_mode_alist@ == old(self).auto_mode_alist@,
            final (self).custom_variables@.len() == old(self).custom_variables@.len(),
            final (self).custom_groups@ == old(self).custom_groups@,
    {
        let mode = MajorMode {
            name: "fundamental-mode".to_owned(),
            pretty_name: "Fundamental".to_owned(),
            parent: None,
            mode_hook: "fundamental-mode-hook".to_owned(),
            keymap_name: None,
            syntax_table_name: None,
            abbrev_table_name: None,
            font_lock: None,
            body: None,
        };
        self.register_major_mode(mode);
    }

    /// Register a major mode, replacing any earlier registration under
    /// the same name.
    pub fn register_major_mode(&mut self, mode: MajorMode)
        ensures
            final (self).spec_has_major(mode.name@),
            final (self).spec_major_at(mode.name@) == mode,
            final (self).major_modes@.len() == old(self).major_modes@.len() + (if old(
                self,
            ).spec_has_major(mode.name@) {
                0int
            } else {
                1int
            }),
            final (self).minor_modes@ == old(self).minor_modes@,
            final (self).buffer_major_modes@ == old(self).buffer_major_modes@,
            final (self).buffer_minor_modes@ == old(self).buffer_minor_modes@,
            final (self).global_minor_modes@ == old(self).global_minor_modes@,
            final (self).auto_mode_alist@ == old(self).auto_mode_alist@,
            final (self).custom_variables@.len() == old(self).custom_variables@.len(),
            final (self).custom_groups@ == old(self).custom_groups@,
    {
        let found = self.find_major(mode.name.as_str());
        match found {
            Some(i) => {
                let ghost names0 = self.spec_major_names();
                let ghost namev = mode.name@;
                proof {
                    lemma_name_index(names0, namev);
                }
                self.major_modes[i] = mode;
                proof {
                    let names1 = self.spec_major_names();
                    assert(names1 =~= names0.update(i as int, namev));
                    assert(names1[i as int] == namev);
                    lemma_name_index(names0, namev);
                    assert forall|j: int| 0 <= j < i implies names1[j] != namev by {
                        assert(names1[j] == names0[j]);
                    }
                    lemma_name_index_first(names1, namev, i as int);
                }
            },
            None => {
                let ghost names0 = self.spec_major_names();
                let ghost namev = mode.name@;
                let ghost n0 = self.major_modes@.len() as int;
                self.major_modes.push(mode);
                proof {
                    let names1 = self.spec_major_names();
                    assert(names1 =~= names0.push(namev));
                    assert(names1[n0] == namev);
                    lemma_name_index(names0, namev);
                    assert forall|j: int| 0 <= j < n0 implies names1[j] != namev by {
                        assert(names1[j] == names0[j]);
                    }
                    lemma_name_index_first(names1, namev, n0);
                }
            },
        }
    }

    /// Set the active major mode of a buffer; fails exactly when no
    /// such mode is registered.
    pub fn set_major_mode(&mut self, buffer_id: u64, mode_name: &str) -> (r: Result<(), String>)
        ensures
            r is Ok <==> old(self).spec_has_major(mode_name@),
            r is Ok ==> final (self).spec_buffer_major(buffer_id) == mode_name@,
            r is Err ==> *final (self) == *old(self),
            final (self).major_modes@ == old(self).major_modes@,
            final (self).minor_modes@ == old(self).minor_modes@,
            final (self).buffer_minor_modes@ == old(self).buffer_minor_modes@,
            final (self).global_minor_modes@ == old(self).global_minor_modes@,
    {
        if self.find_major(mode_name).is_none() {
            let mut msg = "Unknown major mode: ".to_owned();
            string_push_str(&mut msg, mode_name);
            return Err(msg);
        }
        let found = self.find_buffer_major(buffer_id);
        match found {
            Some(i) => {
                let ghost pairs0 = self.spec_buffer_major_pairs();
                proof {
                    lemma_key_index(pairs0, buffer_id);
                }
                self.buffer_major_modes[i] = (buffer_id, mode_name.to_owned());
                proof {
                    let pairs1 = self.spec_buffer_major_pairs();
                    assert(pairs1 =~= pairs0.update(i as int, (buffer_id, mode_name@)));
                    lemma_key_index(pairs0, buffer_id);
                    assert forall|j: int| 0 <= j < i implies (#[trigger] pairs1[j]).0 != buffer_id
                    by {
                        assert(pairs1[j] == pairs0[j]);
                    }
                    lemma_key_index_first(pairs1, buffer_id, i as int);
                }
            },
            None => {
                let ghost pairs0 = self.spec_buffer_major_pairs();
                let ghost n0 = self.buffer_major_modes@.len() as int;
                self.buffer_major_modes.push((buffer_id, mode_name.to_owned()));
                proof {
                    let pairs1 = self.spec_buffer_major_pairs();
                    assert(pairs1 =~= pairs0.push((buffer_id, mode_name@)));
                    lemma_key_index(pairs0, buffer_id);
                    assert forall|j: int| 0 <= j < n0 implies (#[trigger] pairs1[j]).0 != buffer_id
                    by {
                        assert(pairs1[j] == pairs0[j]);
                    }
                    lemma_key_index_first(pairs1, buffer_id, n0);
                }
            },
        }
        Ok(())
    }

    /// The active major mode name of a buffer; buffers with no record
    /// are in the fundamental mode.
    pub fn get_major_mode(&self, buffer_id: u64) -> (r: String)
        ensures
            r@ == self.spec_buffer_major(buffer_id),
    {
        let found = self.find_buffer_major(buffer_id);
        match found {
            Some(i) => {
                proof {
                    lemma_key_index(self.spec_buffer_major_pairs(), buffer_id);
                }
                self.buffer_major_modes[i].1.clone()
            },
            None => "fundamental-mode".to_owned(),
        }
    }

    /// The registered definition of a major mode, if any.
    pub fn get_major_mode_def(&self, mode_name: &str) -> (r: Option<&MajorMode>)
        ensures
            r is Some <==> self.spec_has_major(mode_name@),
            r matches Some(m) ==> *m == self.spec_major_at(mode_name@),
    {
        let found = self.find_major(mode_name);
        match found {
            Some(i) => {
                proof {
                    lemma_name_index(self.spec_major_names(), mode_name@);
                }
                Some(&self.major_modes[i])
            },
            None => None,
        }
    }

    /// Whether a major mode with this name is registered.
    pub fn has_major_mode(&self, mode_name: &str) -> (r: bool)
        ensures
            r == self.spec_has_major(mode_name@),
    {
        self.find_major(mode_name).is_some()
    }
}

/// Suffix match of a filename against an automatic-mode pattern.
pub fn filename_matches_pattern(filename: &str, pattern: &str) -> (r: bool)
    ensures
        r == spec_ends_with(filename@, pattern@),
{
    str_ends_with(filename, pattern)
}

impl ModeRegistry {
    /// Register a minor mode, replacing any earlier registration under
    /// the same name.
    pub fn register_minor_mode(&mut self, mode: MinorMode)
        ensures
            final (self).spec_has_minor(mode.name@),
            final (self).spec_minor_at(mode.name@) == mode,
            final (self).major_modes@ == old(self).major_modes@,
            final (self).buffer_major_modes@ == old(self).buffer_major_modes@,
            final (self).buffer_minor_modes@ == old(self).buffer_minor_modes@,
            final (self).global_minor_modes@ == old(self).global_minor_modes@,
    {
        let found = self.find_minor(mode.name.as_str());
        match found {
            Some(i) => {
                let ghost names0 = self.spec_minor_names();
                let ghost namev = mode.name@;
                proof {
                    lemma_name_index(names0, namev);
                }
                self.minor_modes[i] = mode;
                proof {
                    let names1 = self.spec_minor_names();
                    assert(names1 =~= names0.update(i as int, namev));
                    assert forall|j: int| 0 <= j < i implies names1[j] != namev by {
                        assert(names1[j] == names0[j]);
                    }
                    lemma_name_index_first(names1, namev, i as int);
                }
            },
            None => {
                let ghost names0 = self.spec_minor_names();
                let ghost namev = mode.name@;
                let ghost n0 = self.minor_modes@.len() as int;
                self.minor_modes.push(mode);
                proof {
                    let names1 = self.spec_minor_names();
                    assert(names1 =~= names0.push(namev));
                    lemma_name_index(names0, namev);
                    assert forall|j: int| 0 <= j < n0 implies names1[j] != namev by {
                        assert(names1[j] == names0[j]);
                    }
                    lemma_name_index_first(names1, namev, n0);
                }
            },
        }
    }

    /// Enable a minor mode buffer-locally; fails exactly when no such
    /// mode is registered.
    pub fn enable_minor_mode(&mut self, buffer_id: u64, mode_name: &str) -> (r: Result<(), String>)
        ensures
            r is Ok <==> old(self).spec_has_minor(mode_name@),
            r is Ok ==> final (self).spec_minor_active(buffer_id, mode_name@),
            r is Ok ==> final (self).spec_buffer_minors(buffer_id) == (if spec_has_name(
                old(self).spec_buffer_minors(buffer_id),
                mode_name@,
            ) {
                old(self).spec_buffer_minors(buffer_id)
            } else {
                old(self).spec_buffer_minors(buffer_id).push(mode_name@)
            }),
            r is Err ==> *final (self) == *old(self),
            final (self).major_modes@ == old(self).major_modes@,
            final (self).minor_modes@ == old(self).minor_modes@,
            final (self).buffer_major_modes@ == old(self).buffer_major_modes@,
            final (self).global_minor_modes@ == old(self).global_minor_modes@,
    {
        if self.find_minor(mode_name).is_none() {
            let mut msg = "Unknown minor mode: ".to_owned();
            string_push_str(&mut msg, mode_name);
            return Err(msg);
        }
        let ghost pairs0 = self.buffer_minor_modes@.map_values(
            |p: (u64, Vec<String>)| (p.0, p.1@.map_values(|t: String| t@)),
        );
        let found = self.find_buffer_minors(buffer_id);
        match found {
            Some(i) => {
                proof {
                    lemma_key_index_names(pairs0, buffer_id);
                }
                if !string_vec_contains(&self.buffer_minor_modes[i].1, mode_name) {
                    let mut entry = (buffer_id, Vec::new());
                    std::mem::swap(&mut entry, &mut self.buffer_minor_modes[i]);
                    let (_, mut names) = entry;
                    names.push(mode_name.to_owned());
                    let ghost namesv = names@.map_values(|t: String| t@);
                    self.buffer_minor_modes[i] = (buffer_id, names);
                    proof {
                        let pairs1 = self.buffer_minor_modes@.map_values(
                            |p: (u64, Vec<String>)| (p.0, p.1@.map_values(|t: String| t@)),
                        );
                        assert(pairs1[i as int].0 == buffer_id);
                        assert forall|j: int|
                            0 <= j < i implies (#[trigger] pairs1[j]).0 != buffer_id by {
                            assert(pairs1[j].0 == pairs0[j].0);
                        }
                        lemma_key_index_names_first(pairs1, buffer_id, i as int);
                        assert(pairs1[i as int].1 =~= namesv);
                        assert(namesv[namesv.len() - 1] == mode_name@);
                        lemma_name_index(namesv, mode_name@);
                        if spec_name_index(namesv, mode_name@) == -1 {
                            assert(namesv[namesv.len() - 1] != mode_name@);
                        }
                    }
                } else {
                    proof {
                        let pairs1 = self.buffer_minor_modes@.map_values(
                            |p: (u64, Vec<String>)| (p.0, p.1@.map_values(|t: String| t@)),
                        );
                        assert(pairs1 =~= pairs0);
                    }
                }
            },
            None => {
                let ghost n0 = self.buffer_minor_modes@.len() as int;
                let mut names: Vec<String> = Vec::new();
                names.push(mode_name.to_owned());
                let ghost namesv = names@.map_values(|t: String| t@);
                self.buffer_minor_modes.push((buffer_id, names));
                proof {
                    let pairs1 = self.buffer_minor_modes@.map_values(
                        |p: (u64, Vec<String>)| (p.0, p.1@.map_values(|t: String| t@)),
                    );
                    assert(pairs1 =~= pairs0.push((buffer_id, namesv)));
                    lemma_key_index_names(pairs0, buffer_id);
                    assert forall|j: int|
                        0 <= j < n0 implies (#[trigger] pairs1[j]).0 != buffer_id by {
                        assert(pairs1[j] == pairs0[j]);
                    }
                    lemma_key_index_names_first(pairs1, buffer_id, n0);
                    assert(pairs1[n0].1 =~= namesv);
                    assert(namesv[0] == mode_name@);
                    lemma_name_index(namesv, mode_name@);
                    if spec_name_index(namesv, mode_name@) == -1 {
                        assert(namesv[0] != mode_name@);
                    }
                    assert(old(self).spec_buffer_minors(buffer_id) =~= Seq::<Seq<char>>::empty());
                    assert(namesv =~= Seq::<Seq<char>>::empty().push(mode_name@));
                    lemma_name_index(Seq::<Seq<char>>::empty(), mode_name@);
                }
            },
        }
        Ok(())
    }

    /// Disable a buffer-local minor mode; unknown names and buffers are
    /// ignored.
    pub fn disable_minor_mode(&mut self, buffer_id: u64, mode_name: &str)
        ensures
            !spec_has_name(final (self).spec_buffer_minors(buffer_id), mode_name@),
            final (self).spec_buffer_minors(buffer_id) == spec_remove_name(
                old(self).spec_buffer_minors(buffer_id),
                mode_name@,
            ),
            final (self).major_modes@ == old(self).major_modes@,
            final (self).minor_modes@ == old(self).minor_modes@,
            final (self).buffer_major_modes@ == old(self).buffer_major_modes@,
            final (self).global_minor_modes@ == old(self).global_minor_modes@,
    {
        let ghost pairs0 = self.buffer_minor_modes@.map_values(
            |p: (u64, Vec<String>)| (p.0, p.1@.map_values(|t: String| t@)),
        );
        let found = self.find_buffer_minors(buffer_id);
        match found {
            Some(i) => {
                proof {
                    lemma_key_index_names(pairs0, buffer_id);
                }
                let mut entry = (buffer_id, Vec::new());
                std::mem::swap(&mut entry, &mut self.buffer_minor_modes[i]);
                let (_, names) = entry;
                let filtered = string_vec_remove(names, mode_name);
                let ghost namesv = filtered@.map_values(|t: String| t@);
                self.buffer_minor_modes[i] = (buffer_id, filtered);
                proof {
                    let pairs1 = self.buffer_minor_modes@.map_values(
                        |p: (u64, Vec<String>)| (p.0, p.1@.map_values(|t: String| t@)),
                    );
                    assert(pairs1[i as int].0 == buffer_id);
                    assert forall|j: int|
                        0 <= j < i implies (#[trigger] pairs1[j]).0 != buffer_id by {
                        assert(pairs1[j].0 == pairs0[j].0);
                    }
                    lemma_key_index_names_first(pairs1, buffer_id, i as int);
                    assert(pairs1[i as int].1 =~= namesv);
                    lemma_name_index(namesv, mode_name@);
                    if spec_name_index(namesv, mode_name@) >= 0 {
                        assert(namesv[spec_name_index(namesv, mode_name@)] == mode_name@);
                    }
                }
            },
            None => {
                proof {
                    lemma_key_index_names(pairs0, buffer_id);
                    assert(spec_remove_name(Seq::<Seq<char>>::empty(), mode_name@) =~= Seq::<
                        Seq<char>,
                    >::empty());
                }
            },
        }
    }

    /// Whether a minor mode is active in a buffer, buffer-locally or
    /// globally.
    pub fn is_minor_mode_active(&self, buffer_id: u64, mode_name: &str) -> (r: bool)
        ensures
            r == self.spec_minor_active(buffer_id, mode_name@),
    {
        let ghost pairs0 = self.buffer_minor_modes@.map_values(
            |p: (u64, Vec<String>)| (p.0, p.1@.map_values(|t: String| t@)),
        );
        let found = self.find_buffer_minors(buffer_id);
        let local = match found {
            Some(i) => {
                proof {
                    lemma_key_index_names(pairs0, buffer_id);
                }
                let r = string_vec_contains(&self.buffer_minor_modes[i].1, mode_name);
                proof {
                    assert(pairs0[i as int].1 =~= self.buffer_minor_modes@[i as int].1@.map_values(
                        |t: String| t@,
                    ));
                }
                r
            },
            None => {
                proof {
                    assert(!spec_has_name(Seq::empty(), mode_name@));
                }
                false
            },
        };
        if local {
            return true;
        }
        let ghost globals = self.spec_global_minors();
        let r = string_vec_contains(&self.global_minor_modes, mode_name);
        r
    }

    /// Toggle a buffer-local minor mode; reports whether the mode is
    /// now active. Fails exactly when no such mode is registered.
    pub fn toggle_minor_mode(&mut self, buffer_id: u64, mode_name: &str) -> (r: Result<bool, String>)
        ensures
            r is Ok <==> old(self).spec_has_minor(mode_name@),
            r matches Ok(b) ==> b == !old(self).spec_minor_active(buffer_id, mode_name@),
            r == Result::<bool, String>::Ok(true) ==> final (self).spec_minor_active(
                buffer_id,
                mode_name@,
            ),
            r == Result::<bool, String>::Ok(false) ==> !spec_has_name(
                final (self).spec_buffer_minors(buffer_id),
                mode_name@,
            ),
            r is Err ==> *final (self) == *old(self),
            final (self).major_modes@ == old(self).major_modes@,
            final (self).minor_modes@ == old(self).minor_modes@,
            final (self).buffer_major_modes@ == old(self).buffer_major_modes@,
            final (self).global_minor_modes@ == old(self).global_minor_modes@,
    {
        if self.find_minor(mode_name).is_none() {
            let mut msg = "Unknown minor mode: ".to_owned();
            string_push_str(&mut msg, mode_name);
            return Err(msg);
        }
        if self.is_minor_mode_active(buffer_id, mode_name) {
            self.disable_minor_mode(buffer_id, mode_name);
            Ok(false)
        } else {
            let r = self.enable_minor_mode(buffer_id, mode_name);
            Ok(true)
        }
    }

    /// The active minor mode list of a buffer: the global names in
    /// order, then each buffer-local name not already listed.
    pub open spec fn spec_active_minors(&self, buffer_id: u64) -> Seq<Seq<char>> {
        spec_add_names(self.spec_global_minors(), self.spec_buffer_minors(buffer_id))
    }

    /// All active minor mode names of a buffer: the global ones first,
    /// then the buffer-local ones not already listed.
    pub fn active_minor_modes(&self, buffer_id: u64) -> (r: Vec<String>)
        ensures
            r@.map_values(|t: String| t@) == self.spec_active_minors(buffer_id),
            forall|i: int|
                0 <= i < r@.len() ==> self.spec_minor_active(
                    buffer_id,
                    (#[trigger] r@[i])@,
                ),
    {
        let ghost pairs0 = self.buffer_minor_modes@.map_values(
            |p: (u64, Vec<String>)| (p.0, p.1@.map_values(|t: String| t@)),
        );
        let mut result: Vec<String> = Vec::new();
        let ghost globals = self.spec_global_minors();
        let gn = self.global_minor_modes.len();
        let mut i: usize = 0;
        while i < gn
            invariant
                i <= gn,
                gn == self.global_minor_modes@.len(),
                globals == self.spec_global_minors(),
                result@.map_values(|t: String| t@) == globals.take(i as int),
                forall|j: int|
                    0 <= j < result@.len() ==> self.spec_minor_active(
                        buffer_id,
                        (#[trigger] result@[j])@,
                    ),
            decreases gn - i,
        {
            let ghost prev = result@.map_values(|t: String| t@);
            let item = self.global_minor_modes[i].clone();
            proof {
                assert(item@ == globals[i as int]);
            }
            result.push(item);
            proof {
                lemma_name_has(globals, i as int);
                assert(result@.map_values(|t: String| t@) =~~= prev.push(item@));
                assert(prev.push(item@) =~~= globals.take(i as int + 1));
            }
            i = i + 1;
        }
        proof {
            assert(globals.take(gn as int) =~= globals);
        }
        let found = self.find_buffer_minors(buffer_id);
        match found {
            Some(bi) => {
                proof {
                    lemma_key_index_names(pairs0, buffer_id);
                }
                let locals = &self.buffer_minor_modes[bi].1;
                let ghost lview = self.buffer_minor_modes@[bi as int].1@.map_values(
                    |t: String| t@,
                );
                proof {
                    assert(pairs0[bi as int].1 =~= lview);
                    assert(self.spec_buffer_minors(buffer_id) == lview);
                    assert(spec_add_names(globals, lview.take(0)) =~= globals) by {
                        assert(lview.take(0) =~= Seq::<Seq<char>>::empty());
                    }
                }
                let ln = locals.len();
                let mut k: usize = 0;
                while k < ln
                    invariant
                        k <= ln,
                        ln == locals@.len(),
                        locals == &self.buffer_minor_modes@[bi as int].1,
                        bi < self.buffer_minor_modes@.len(),
                        lview == self.buffer_minor_modes@[bi as int].1@.map_values(
                            |t: String| t@,
                        ),
                        pairs0 == self.buffer_minor_modes@.map_values(
                            |p: (u64, Vec<String>)| (p.0, p.1@.map_values(|t: String| t@)),
                        ),
                        spec_key_index_names(pairs0, buffer_id) == bi,
                        self.spec_buffer_minors(buffer_id) == lview,
                        result@.map_values(|t: String| t@) == spec_add_names(
                            globals,
                            lview.take(k as int),
                        ),
                        globals == self.spec_global_minors(),
                        forall|j: int|
                            0 <= j < result@.len() ==> self.spec_minor_active(
                                buffer_id,
                                (#[trigger] result@[j])@,
                            ),
                    decreases ln - k,
                {
                    let ghost pre = result@.map_values(|t: String| t@);
                    proof {
                        assert(lview.take(k as int + 1) =~= lview.take(k as int) + seq![
                            lview[k as int],
                        ]);
                        lemma_add_names_snoc(globals, lview.take(k as int), lview[k as int]);
                        assert(locals@[k as int]@ == lview[k as int]);
                    }
                    if !string_vec_contains(&result, locals[k].as_str()) {
                        result.push(locals[k].clone());
                        proof {
                            lemma_name_has(lview, k as int);
                            assert(result@.map_values(|t: String| t@) =~= pre.push(
                                lview[k as int],
                            ));
                        }
                    }
                    k = k + 1;
                }
                proof {
                    assert(lview.take(ln as int) =~= lview);
                }
            },
            None => {
                proof {
                    assert(self.spec_buffer_minors(buffer_id) =~= Seq::<Seq<char>>::empty());
                    assert(spec_add_names(globals, Seq::<Seq<char>>::empty()) =~= globals);
                }
            },
        }
        result
    }

    /// Enable a minor mode globally; fails exactly when no such mode is
    /// registered.
    pub fn enable_global_minor_mode(&mut self, mode_name: &str) -> (r: Result<(), String>)
        ensures
            r is Ok <==> old(self).spec_has_minor(mode_name@),
            r is Ok ==> spec_has_name(final (self).spec_global_minors(), mode_name@),
            r is Err ==> *final (self) == *old(self),
            final (self).major_modes@ == old(self).major_modes@,
            final (self).minor_modes@ == old(self).minor_modes@,
            final (self).buffer_major_modes@ == old(self).buffer_major_modes@,
            final (self).buffer_minor_modes@ == old(self).buffer_minor_modes@,
    {
        if self.find_minor(mode_name).is_none() {
            let mut msg = "Unknown minor mode: ".to_owned();
            string_push_str(&mut msg, mode_name);
            return Err(msg);
        }
        if !string_vec_contains(&self.global_minor_modes, mode_name) {
            let ghost g0 = self.spec_global_minors();
            let ghost n0 = self.global_minor_modes@.len() as int;
            self.global_minor_modes.push(mode_name.to_owned());
            proof {
                let g1 = self.spec_global_minors();
                assert(g1 =~= g0.push(mode_name@));
                lemma_name_has(g1, n0);
            }
        }
        Ok(())
    }

    /// Disable a globally active minor mode; unknown names are ignored.
    pub fn disable_global_minor_mode(&mut self, mode_name: &str)
        ensures
            !spec_has_name(final (self).spec_global_minors(), mode_name@),
            final (self).spec_global_minors() == spec_remove_name(
                old(self).spec_global_minors(),
                mode_name@,
            ),
            final (self).major_modes@ == old(self).major_modes@,
            final (self).minor_modes@ == old(self).minor_modes@,
            final (self).buffer_major_modes@ == old(self).buffer_major_modes@,
            final (self).buffer_minor_modes@ == old(self).buffer_minor_modes@,
    {
        let mut old_names: Vec<String> = Vec::new();
        std::mem::swap(&mut old_names, &mut self.global_minor_modes);
        let filtered = string_vec_remove(old_names, mode_name);
        self.global_minor_modes = filtered;
        proof {
            let g1 = self.spec_global_minors();
            lemma_name_index(g1, mode_name@);
            if spec_name_index(g1, mode_name@) >= 0 {
                assert(g1[spec_name_index(g1, mode_name@)] == mode_name@);
            }
        }
    }

    /// Add an automatic-mode pattern: filenames ending with `pattern`
    /// select `mode`.
    pub fn add_auto_mode(&mut self, pattern: String, mode: String)
        ensures
            final (self).auto_mode_alist@ == old(self).auto_mode_alist@.push((pattern, mode)),
            final (self).major_modes@ == old(self).major_modes@,
            final (self).minor_modes@ == old(self).minor_modes@,
            final (self).buffer_major_modes@ == old(self).buffer_major_modes@,
            final (self).buffer_minor_modes@ == old(self).buffer_minor_modes@,
            final (self).global_minor_modes@ == old(self).global_minor_modes@,
    {
        self.auto_mode_alist.push((pattern, mode));
    }

    /// The mode selected for a filename: the first pattern in the
    /// automatic-mode list whose suffix matches.
    pub fn mode_for_file(&self, filename: &str) -> (r: Option<String>)
        ensures
            ({
                let idx = spec_auto_mode_index(
                    self.auto_mode_alist@.map_values(|p: (String, String)| (p.0@, p.1@)),
                    filename@,
                );
                &&& (r is Some <==> idx >= 0)
                &&& (r matches Some(m) ==> idx >= 0 && m@ == self.auto_mode_alist@.map_values(
                    |p: (String, String)| (p.0@, p.1@),
                )[idx].1)
            }),
    {
        let ghost pairs = self.auto_mode_alist@.map_values(|p: (String, String)| (p.0@, p.1@));
        let n = self.auto_mode_alist.len();
        let mut i: usize = 0;
        while i < n
            invariant
                i <= n,
                n == self.auto_mode_alist@.len(),
                pairs == self.auto_mode_alist@.map_values(|p: (String, String)| (p.0@, p.1@)),
                forall|j: int|
                    0 <= j < i ==> !spec_ends_with(filename@, (#[trigger] pairs[j]).0),
            decreases n - i,
        {
            if filename_matches_pattern(filename, self.auto_mode_alist[i].0.as_str()) {
                proof {
                    lemma_auto_mode_first(pairs, filename@, i as int);
                }
                return Some(self.auto_mode_alist[i].1.clone());
            }
            i = i + 1;
        }
        proof {
            lemma_auto_mode_none(pairs, filename@);
        }
        None
    }

    /// Drop all per-buffer mode state of a buffer (when it is killed).
    pub fn remove_buffer(&mut self, buffer_id: u64)
        ensures
            spec_key_index(final (self).spec_buffer_major_pairs(), buffer_id) == -1,
            final (self).spec_buffer_major(buffer_id) == "fundamental-mode"@,
            final (self).major_modes@ == old(self).major_modes@,
            final (self).minor_modes@ == old(self).minor_modes@,
            final (self).global_minor_modes@ == old(self).global_minor_modes@,
    {
        let mut kept_major: Vec<(u64, String)> = Vec::new();
        let n = self.buffer_major_modes.len();
        let mut i: usize = 0;
        while i < n
            invariant
                i <= n,
                n == self.buffer_major_modes@.len(),
                forall|j: int|
                    0 <= j < kept_major@.len() ==> (#[trigger] kept_major@[j]).0 != buffer_id,
            decreases n - i,
        {
            if self.buffer_major_modes[i].0 != buffer_id {
                let entry = (self.buffer_major_modes[i].0, self.buffer_major_modes[i].1.clone());
                kept_major.push(entry);
            }
            i = i + 1;
        }
        self.buffer_major_modes = kept_major;
        let mut kept_minor: Vec<(u64, Vec<String>)> = Vec::new();
        let mut src: Vec<(u64, Vec<String>)> = Vec::new();
        std::mem::swap(&mut src, &mut self.buffer_minor_modes);
        while src.len() > 0
            invariant
                true,
            decreases src@.len(),
        {
            let entry = src.pop();
            match entry {
                Some(e) => {
                    if e.0 != buffer_id {
                        kept_minor.push(e);
                    }
                },
                None => {},
            }
        }
        self.buffer_minor_modes = kept_minor;
        proof {
            let pairs1 = self.spec_buffer_major_pairs();
            lemma_key_index(pairs1, buffer_id);
            if spec_key_index(pairs1, buffer_id) >= 0 {
                assert(pairs1[spec_key_index(pairs1, buffer_id)].0 == buffer_id);
            }
        }
    }
}

/// The index in a kept name list that makes a name present.
proof fn lemma_name_has(names: Seq<Seq<char>>, i: int)
    requires
        0 <= i < names.len(),
    ensures
        spec_has_name(names, names[i]),
    decreases i,
{
    lemma_name_index(names, names[i]);
    if spec_name_index(names, names[i]) == -1 {
        assert(names[i] != names[i]);
    }
}

/// Index of the first automatic-mode pattern that suffix-matches a
/// filename, or -1.
pub open spec fn spec_auto_mode_index(pairs: Seq<(Seq<char>, Seq<char>)>, filename: Seq<char>) -> int
    decreases pairs.len(),
{
    if pairs.len() == 0 {
        -1
    } else if spec_ends_with(filename, pairs[0].0) {
        0
    } else {
        let rest = spec_auto_mode_index(pairs.drop_first(), filename);
        if rest == -1 {
            -1
        } else {
            rest + 1
        }
    }
}

proof fn lemma_auto_mode_first(pairs: Seq<(Seq<char>, Seq<char>)>, filename: Seq<char>, i: int)
    requires
        0 <= i < pairs.len(),
        spec_ends_with(filename, pairs[i].0),
        forall|j: int| 0 <= j < i ==> !spec_ends_with(filename, (#[trigger] pairs[j]).0),
    ensures
        spec_auto_mode_index(pairs, filename) == i,
    decreases i,
{
    if i > 0 {
        lemma_auto_mode_first(pairs.drop_first(), filename, i - 1);
        assert forall|j: int|
            0 <= j < i - 1 implies !spec_ends_with(
            filename,
            (#[trigger] pairs.drop_first()[j]).0,
        ) by {
            assert(pairs.drop_first()[j] == pairs[j + 1]);
        }
        assert(pairs.drop_first()[i - 1] == pairs[i]);
    }
}

proof fn lemma_auto_mode_none(pairs: Seq<(Seq<char>, Seq<char>)>, filename: Seq<char>)
    requires
        forall|j: int| 0 <= j < pairs.len() ==> !spec_ends_with(filename, (#[trigger] pairs[j]).0),
    ensures
        spec_auto_mode_index(pairs, filename) == -1,
    decreases pairs.len(),
{
    if pairs.len() > 0 {
        assert(!spec_ends_with(filename, pairs[0].0));
        assert forall|j: int|
            0 <= j < pairs.drop_first().len() implies !spec_ends_with(
            filename,
            (#[trigger] pairs.drop_first()[j]).0,
        ) by {
            assert(pairs.drop_first()[j] == pairs[j + 1]);
        }
        lemma_auto_mode_none(pairs.drop_first(), filename);
    }
}

/// Whether a string vector holds a string equal to `name`.
fn string_vec_contains(v: &Vec<String>, name: &str) -> (r: bool)
    ensures
        r == spec_has_name(v@.map_values(|t: String| t@), name@),
{
    let ghost names = v@.map_values(|t: String| t@);
    let n = v.len();
    let mut i: usize = 0;
    while i < n
        invariant
            i <= n,
            n == v@.len(),
            names == v@.map_values(|t: String| t@),
            forall|j: int| 0 <= j < i ==> names[j] != name@,
        decreases n - i,
    {
        if str_eq(v[i].as_str(), name) {
            proof {
                lemma_name_index_first(names, name@, i as int);
            }
            return true;
        }
        i = i + 1;
    }
    proof {
        lemma_name_index(names, name@);
        if spec_name_index(names, name@) >= 0 {
            assert(names[spec_name_index(names, name@)] == name@);
        }
    }
    false
}

/// The names of a sequence with every occurrence of `name` removed,
/// in their old order.
pub open spec fn spec_remove_name(names: Seq<Seq<char>>, name: Seq<char>) -> Seq<Seq<char>>
    decreases names.len(),
{
    if names.len() == 0 {
        Seq::empty()
    } else if names[0] == name {
        spec_remove_name(names.drop_first(), name)
    } else {
        seq![names[0]] + spec_remove_name(names.drop_first(), name)
    }
}

/// Removal splits over concatenation.
proof fn lemma_remove_name_concat(a: Seq<Seq<char>>, b: Seq<Seq<char>>, name: Seq<char>)
    ensures
        spec_remove_name(a + b, name) == spec_remove_name(a, name) + spec_remove_name(b, name),
    decreases a.len(),
{
    if a.len() == 0 {
        assert(a + b =~= b);
        assert(spec_remove_name(a, name) =~= Seq::<Seq<char>>::empty());
        assert(spec_remove_name(a, name) + spec_remove_name(b, name) =~= spec_remove_name(
            b,
            name,
        ));
    } else {
        assert((a + b).drop_first() =~= a.drop_first() + b);
        lemma_remove_name_concat(a.drop_first(), b, name);
        assert(spec_remove_name(a + b, name) =~= spec_remove_name(a, name) + spec_remove_name(
            b,
            name,
        ));
    }
}

/// Nothing left after a removal equals the removed name.
proof fn lemma_remove_name_gone(names: Seq<Seq<char>>, name: Seq<char>)
    ensures
        forall|j: int|
            0 <= j < spec_remove_name(names, name).len() ==> spec_remove_name(names, name)[j]
                != name,
    decreases names.len(),
{
    if names.len() > 0 {
        lemma_remove_name_gone(names.drop_first(), name);
        if names[0] != name {
            assert forall|j: int|
                0 <= j < spec_remove_name(names, name).len() implies spec_remove_name(
                names,
                name,
            )[j] != name by {
                if j > 0 {
                    assert(spec_remove_name(names, name)[j] == spec_remove_name(
                        names.drop_first(),
                        name,
                    )[j - 1]);
                }
            }
        }
    }
}

/// Remove every string equal to `name` from a string vector, keeping
/// the order of the rest.
fn string_vec_remove(v: Vec<String>, name: &str) -> (r: Vec<String>)
    ensures
        r@.map_values(|t: String| t@) == spec_remove_name(v@.map_values(|t: String| t@), name@),
        forall|j: int| 0 <= j < r@.len() ==> (#[trigger] r@[j])@ != name@,
{
    let ghost names = v@.map_values(|t: String| t@);
    let mut out: Vec<String> = Vec::new();
    let n = v.len();
    let mut i: usize = 0;
    while i < n
        invariant
            i <= n,
            n == v@.len(),
            names == v@.map_values(|t: String| t@),
            out@.map_values(|t: String| t@) == spec_remove_name(names.take(i as int), name@),
        decreases n - i,
    {
        let ghost pre = out@.map_values(|t: String| t@);
        if !str_eq(v[i].as_str(), name) {
            out.push(v[i].clone());
        }
        proof {
            assert(names.take(i as int + 1) =~= names.take(i as int) + seq![names[i as int]]);
            lemma_remove_name_concat(names.take(i as int), seq![names[i as int]], name@);
            assert(seq![names[i as int]].drop_first() =~= Seq::<Seq<char>>::empty());
            assert(spec_remove_name(Seq::<Seq<char>>::empty(), name@) =~= Seq::<Seq<char>>::empty());
            if names[i as int] == name@ {
                assert(spec_remove_name(seq![names[i as int]], name@) =~= Seq::<Seq<char>>::empty());
                assert(out@.map_values(|t: String| t@) =~= pre + spec_remove_name(
                    seq![names[i as int]],
                    name@,
                ));
            } else {
                assert(spec_remove_name(seq![names[i as int]], name@) =~= seq![names[i as int]]
                    + Seq::<Seq<char>>::empty());
                assert(out@.map_values(|t: String| t@) =~= pre + seq![names[i as int]]);
            }
        }
        i = i + 1;
    }
    proof {
        assert(names.take(n as int) =~= names);
        lemma_remove_name_gone(names, name@);
        let rv = out@.map_values(|t: String| t@);
        assert forall|j: int| 0 <= j < out@.len() implies (#[trigger] out@[j])@ != name@ by {
            assert(rv[j] == out@[j]@);
        }
    }
    out
}

/// Whether `name` is derived from `ancestor` within `fuel` steps up the
/// parent chain. A mode derives from itself; chains deeper than the
/// registry (a cycle) are cut off by the fuel.
pub open spec fn spec_derived(reg: &ModeRegistry, name: Seq<char>, ancestor: Seq<char>, fuel: nat)
    -> bool
    decreases fuel,
{
    if name == ancestor {
        true
    } else if !reg.spec_has_major(name) {
        false
    } else {
        match reg.spec_major_at(name).parent {
            Some(p) => fuel > 0 && spec_derived(reg, p@, ancestor, (fuel - 1) as nat),
            None => false,
        }
    }
}

/// Index of the major mode whose font-lock rules apply to `name`: the
/// first mode up the parent chain carrying font-lock defaults, within
/// `fuel` steps; -1 when there is none.
pub open spec fn spec_font_lock_owner(reg: &ModeRegistry, name: Seq<char>, fuel: nat) -> int
    decreases fuel,
{
    if !reg.spec_has_major(name) {
        -1
    } else if reg.spec_major_at(name).font_lock is Some {
        spec_name_index(reg.spec_major_names(), name)
    } else {
        match reg.spec_major_at(name).parent {
            Some(p) => if fuel > 0 {
                spec_font_lock_owner(reg, p@, (fuel - 1) as nat)
            } else {
                -1
            },
            None => -1,
        }
    }
}

impl ModeRegistry {
    /// Whether `mode_name` derives from `ancestor` (a mode derives from
    /// itself). Parent chains are followed at most one step per
    /// registered mode, so a cyclic chain terminates.
    pub fn derived_mode_p(&self, mode_name: &str, ancestor: &str) -> (r: bool)
        requires
            self.major_modes@.len() < usize::MAX,
        ensures
            r == spec_derived(
                self,
                mode_name@,
                ancestor@,
                (self.major_modes@.len() + 1) as nat,
            ),
    {
        let mut current = mode_name.to_owned();
        let mut fuel: usize = self.major_modes.len() + 1;
        loop
            invariant
                spec_derived(self, mode_name@, ancestor@, (self.major_modes@.len() + 1) as nat)
                    == spec_derived(self, current@, ancestor@, fuel as nat),
            decreases fuel,
        {
            if str_eq(current.as_str(), ancestor) {
                return true;
            }
            let found = self.find_major(current.as_str());
            match found {
                Some(i) => {
                    proof {
                        lemma_name_index(self.spec_major_names(), current@);
                    }
                    match &self.major_modes[i].parent {
                        Some(p) => {
                            if fuel == 0 {
                                return false;
                            }
                            let next = p.clone();
                            fuel = fuel - 1;
                            current = next;
                        },
                        None => {
                            return false;
                        },
                    }
                },
                None => {
                    return false;
                },
            }
        }
    }

    /// The font-lock keyword rules that apply to a mode: its own, or
    /// the nearest ancestor's, or none.
    pub fn font_lock_keywords(&self, mode_name: &str) -> (r: Option<&Vec<FontLockKeyword>>)
        requires
            self.major_modes@.len() < usize::MAX,
        ensures
            ({
                let owner = spec_font_lock_owner(
                    self,
                    mode_name@,
                    (self.major_modes@.len() + 1) as nat,
                );
                &&& (r is Some <==> owner >= 0)
                &&& (r matches Some(ks) ==> owner >= 0 && 0 <= owner < self.major_modes@.len()
                    && (self.major_modes@[owner].font_lock matches Some(fl) && ks@ == fl.keywords@))
            }),
    {
        let mut current = mode_name.to_owned();
        let mut fuel: usize = self.major_modes.len() + 1;
        loop
            invariant
                spec_font_lock_owner(self, mode_name@, (self.major_modes@.len() + 1) as nat)
                    == spec_font_lock_owner(self, current@, fuel as nat),
            decreases fuel,
        {
            let found = self.find_major(current.as_str());
            match found {
                Some(i) => {
                    proof {
                        lemma_name_index(self.spec_major_names(), current@);
                    }
                    match &self.major_modes[i].font_lock {
                        Some(fl) => {
                            return Some(&fl.keywords);
                        },
                        None => {
                            match &self.major_modes[i].parent {
                                Some(p) => {
                                    if fuel == 0 {
                                        return None;
                                    }
                                    let next = p.clone();
                                    fuel = fuel - 1;
                                    current = next;
                                },
                                None => {
                                    return None;
                                },
                            }
                        },
                    }
                },
                None => {
                    return None;
                },
            }
        }
    }

    /// Register a custom variable, replacing any earlier registration
    /// under the same name, and record it as a member of its group when
    /// that group exists.
    pub fn register_custom_variable(&mut self, var: CustomVariable)
        ensures
            spec_has_name(final (self).spec_variable_names(), var.name@),
            final (self).custom_variables@[spec_name_index(
                final (self).spec_variable_names(),
                var.name@,
            )] == var,
            final (self).major_modes@ == old(self).major_modes@,
            final (self).minor_modes@ == old(self).minor_modes@,
    {
        match &var.group {
            Some(group_name) => {
                let gfound = self.find_group(group_name.as_str());
                match gfound {
                    Some(gi) => {
                        proof {
                            lemma_name_index(self.spec_group_names(), group_name@);
                        }
                        if !string_vec_contains(&self.custom_groups[gi].members, var.name.as_str())
                             {
                            let mut entry = CustomGroup {
                                name: String::new(),
                                doc: None,
                                parent: None,
                                members: Vec::new(),
                            };
                            std::mem::swap(&mut entry, &mut self.custom_groups[gi]);
                            entry.members.push(var.name.clone());
                            self.custom_groups[gi] = entry;
                        }
                    },
                    None => {},
                }
            },
            None => {},
        }
        let found = self.find_variable(var.name.as_str());
        match found {
            Some(i) => {
                let ghost names0 = self.spec_variable_names();
                let ghost namev = var.name@;
                proof {
                    lemma_name_index(names0, namev);
                }
                self.custom_variables[i] = var;
                proof {
                    let names1 = self.spec_variable_names();
                    assert(names1 =~= names0.update(i as int, namev));
                    assert forall|j: int| 0 <= j < i implies names1[j] != namev by {
                        assert(names1[j] == names0[j]);
                    }
                    lemma_name_index_first(names1, namev, i as int);
                }
            },
            None => {
                let ghost names0 = self.spec_variable_names();
                let ghost namev = var.name@;
                let ghost n0 = self.custom_variables@.len() as int;
                self.custom_variables.push(var);
                proof {
                    let names1 = self.spec_variable_names();
                    assert(names1 =~= names0.push(namev));
                    lemma_name_index(names0, namev);
                    assert forall|j: int| 0 <= j < n0 implies names1[j] != namev by {
                        assert(names1[j] == names0[j]);
                    }
                    lemma_name_index_first(names1, namev, n0);
                }
            },
        }
    }

    /// Register a custom group, replacing any earlier registration
    /// under the same name.
    pub fn register_custom_group(&mut self, group: CustomGroup)
        ensures
            spec_has_name(final (self).spec_group_names(), group.name@),
            final (self).custom_groups@[spec_name_index(
                final (self).spec_group_names(),
                group.name@,
            )] == group,
            final (self).major_modes@ == old(self).major_modes@,
            final (self).minor_modes@ == old(self).minor_modes@,
            final (self).custom_variables@.len() == old(self).custom_variables@.len(),
    {
        let found = self.find_group(group.name.as_str());
        match found {
            Some(i) => {
                let ghost names0 = self.spec_group_names();
                let ghost namev = group.name@;
                proof {
                    lemma_name_index(names0, namev);
                }
                self.custom_groups[i] = group;
                proof {
                    let names1 = self.spec_group_names();
                    assert(names1 =~= names0.update(i as int, namev));
                    assert forall|j: int| 0 <= j < i implies names1[j] != namev by {
                        assert(names1[j] == names0[j]);
                    }
                    lemma_name_index_first(names1, namev, i as int);
                }
            },
            None => {
                let ghost names0 = self.spec_group_names();
                let ghost namev = group.name@;
                let ghost n0 = self.custom_groups@.len() as int;
                self.custom_groups.push(group);
                proof {
                    let names1 = self.spec_group_names();
                    assert(names1 =~= names0.push(namev));
                    lemma_name_index(names0, namev);
                    assert forall|j: int| 0 <= j < n0 implies names1[j] != namev by {
                        assert(names1[j] == names0[j]);
                    }
                    lemma_name_index_first(names1, namev, n0);
                }
            },
        }
    }

    /// Find the index of a registered custom variable by name.
    fn find_variable(&self, name: &str) -> (r: Option<usize>)
        ensures
            r is Some <==> spec_has_name(self.spec_variable_names(), name@),
            r matches Some(i) ==> i == spec_name_index(self.spec_variable_names(), name@),
    {
        let ghost names = self.spec_variable_names();
        let n = self.custom_variables.len();
        let mut i: usize = 0;
        while i < n
            invariant
                i <= n,
                n == self.custom_variables@.len(),
                names == self.spec_variable_names(),
                forall|j: int| 0 <= j < i ==> names[j] != name@,
            decreases n - i,
        {
            if str_eq(self.custom_variables[i].name.as_str(), name) {
                proof {
                    lemma_name_index_first(names, name@, i as int);
                }
                return Some(i);
            }
            i = i + 1;
        }
        proof {
            lemma_name_index(names, name@);
            if spec_name_index(names, name@) >= 0 {
                assert(names[spec_name_index(names, name@)] == name@);
            }
        }
        None
    }

    /// Find the index of a registered custom group by name.
    fn find_group(&self, name: &str) -> (r: Option<usize>)
        ensures
            r is Some <==> spec_has_name(self.spec_group_names(), name@),
            r matches Some(i) ==> i == spec_name_index(self.spec_group_names(), name@),
    {
        let ghost names = self.spec_group_names();
        let n = self.custom_groups.len();
        let mut i: usize = 0;
        while i < n
            invariant
                i <= n,
                n == self.custom_groups@.len(),
                names == self.spec_group_names(),
                forall|j: int| 0 <= j < i ==> names[j] != name@,
            decreases n - i,
        {
            if str_eq(self.custom_groups[i].name.as_str(), name) {
                proof {
                    lemma_name_index_first(names, name@, i as int);
                }
                return Some(i);
            }
            i = i + 1;
        }
        proof {
            lemma_name_index(names, name@);
            if spec_name_index(names, name@) >= 0 {
                assert(names[spec_name_index(names, name@)] == name@);
            }
        }
        None
    }

    /// Look up a custom variable by name.
    pub fn get_custom_variable(&self, name: &str) -> (r: Option<&CustomVariable>)
        ensures
            r is Some <==> spec_has_name(self.spec_variable_names(), name@),
            r matches Some(v) ==> *v == self.custom_variables@[spec_name_index(
                self.spec_variable_names(),
                name@,
            )],
    {
        let found = self.find_variable(name);
        match found {
            Some(i) => {
                proof {
                    lemma_name_index(self.spec_variable_names(), name@);
                }
                Some(&self.custom_variables[i])
            },
            None => None,
        }
    }

    /// Look up a custom group by name.
    pub fn get_custom_group(&self, name: &str) -> (r: Option<&CustomGroup>)
        ensures
            r is Some <==> spec_has_name(self.spec_group_names(), name@),
            r matches Some(g) ==> *g == self.custom_groups@[spec_name_index(
                self.spec_group_names(),
                name@,
            )],
    {
        let found = self.find_group(name);
        match found {
            Some(i) => {
                proof {
                    lemma_name_index(self.spec_group_names(), name@);
                }
                Some(&self.custom_groups[i])
            },
            None => None,
        }
    }

    /// The lighter a minor mode name contributes to a mode line:
    /// its registered lighter, or nothing.
    pub open spec fn spec_lighter_of(&self, name: Seq<char>) -> Seq<char> {
        if self.spec_has_minor(name) {
            match self.spec_minor_at(name).lighter {
                Some(l) => l@,
                None => Seq::empty(),
            }
        } else {
            Seq::empty()
        }
    }

    /// The lighters of the names from index `i` on, concatenated.
    pub open spec fn spec_lighters_from(&self, names: Seq<Seq<char>>, i: int) -> Seq<char>
        decreases names.len() - i,
    {
        if i < 0 || i >= names.len() {
            Seq::empty()
        } else {
            self.spec_lighter_of(names[i]) + self.spec_lighters_from(names, i + 1)
        }
    }

    /// What the buffer's mode line says: the major mode's pretty name
    /// (or its bare name, were it unregistered) and the lighters of
    /// the active minor modes, in parentheses.
    pub open spec fn spec_mode_line(&self, buffer_id: u64) -> Seq<char> {
        let major = self.spec_buffer_major(buffer_id);
        let pretty = if self.spec_has_major(major) {
            self.spec_major_at(major).pretty_name@
        } else {
            major
        };
        "("@ + pretty + self.spec_lighters_from(self.spec_active_minors(buffer_id), 0) + ")"@
    }

    /// A simple mode-line string of a buffer: the major mode's pretty
    /// name and the lighters of the active minor modes, in parentheses.
    pub fn mode_line_string(&self, buffer_id: u64) -> (r: String)
        ensures
            r@ == self.spec_mode_line(buffer_id),
    {
        let major = self.get_major_mode(buffer_id);
        let pretty: String = match self.get_major_mode_def(major.as_str()) {
            Some(m) => m.pretty_name.clone(),
            None => major.clone(),
        };
        let mut out = "(".to_owned();
        string_push_str(&mut out, pretty.as_str());
        let ghost head = out@;
        let minors = self.active_minor_modes(buffer_id);
        let ghost actives = self.spec_active_minors(buffer_id);
        let mn = minors.len();
        let mut i: usize = 0;
        while i < mn
            invariant
                i <= mn,
                mn == minors@.len(),
                actives == self.spec_active_minors(buffer_id),
                minors@.map_values(|t: String| t@) == actives,
                head + self.spec_lighters_from(actives, 0) =~= out@ + self.spec_lighters_from(
                    actives,
                    i as int,
                ),
            decreases mn - i,
        {
            let ghost pre = out@;
            proof {
                assert(minors@[i as int]@ == actives[i as int]);
            }
            match self.get_minor_mode_def(minors[i].as_str()) {
                Some(m) => {
                    match &m.lighter {
                        Some(l) => {
                            let lv = l.clone();
                            string_push_str(&mut out, lv.as_str());
                            proof {
                                assert(out@ =~= pre + self.spec_lighter_of(actives[i as int]));
                            }
                        },
                        None => {
                            proof {
                                assert(self.spec_lighter_of(actives[i as int]) =~= Seq::<
                                    char,
                                >::empty());
                                assert(out@ =~= pre + self.spec_lighter_of(actives[i as int]));
                            }
                        },
                    }
                },
                None => {
                    proof {
                        assert(self.spec_lighter_of(actives[i as int]) =~= Seq::<char>::empty());
                        assert(out@ =~= pre + self.spec_lighter_of(actives[i as int]));
                    }
                },
            }
            proof {
                assert(head + self.spec_lighters_from(actives, 0) =~= out@
                    + self.spec_lighters_from(actives, i as int + 1));
            }
            i = i + 1;
        }
        proof {
            assert(self.spec_lighters_from(actives, mn as int) =~= Seq::<char>::empty());
            assert(out@ =~= head + self.spec_lighters_from(actives, 0));
        }
        string_push_str(&mut out, ")");
        proof {
            assert(out@ =~= self.spec_mode_line(buffer_id));
        }
        out
    }

    /// The registered definition of a minor mode, if any.
    pub fn get_minor_mode_def(&self, mode_name: &str) -> (r: Option<&MinorMode>)
        ensures
            r is Some <==> self.spec_has_minor(mode_name@),
            r matches Some(m) ==> *m == self.spec_minor_at(mode_name@),
    {
        let found = self.find_minor(mode_name);
        match found {
            Some(i) => {
                proof {
                    lemma_name_index(self.spec_minor_names(), mode_name@);
                }
                Some(&self.minor_modes[i])
            },
            None => None,
        }
    }
}

/// A mode-line format: a list of elements rendered in order.
#[derive(Debug, PartialEq)]
pub struct ModeLineFormat {
    pub elements: Vec<ModeLineElement>,
}

/// One element of a mode-line format.
#[derive(Debug, Clone, PartialEq)]
pub enum ModeLineElement {
    /// Literal text.
    Literal(String),
    /// The buffer name.
    BufferName,
    /// The current major mode's pretty name.
    ModeName,
    /// The lighters of the active minor modes.
    MinorModes,
    /// The cursor position as line:column.
    Position,
    /// Percentage through the buffer.
    Percentage,
    /// Modified indicator (`**` or `--`; `%%` when read-only).
    Modified,
    /// Read-only indicator (`%%` or `--`).
    ReadOnly,
    /// Buffer encoding indicator.
    Encoding,
    /// End-of-line convention indicator.
    Eol,
    /// A custom expression, shown in its raw form.
    Custom(String),
}

/// The element renders without consulting the registry.
pub open spec fn spec_simple_element(e: ModeLineElement) -> bool {
    !(e is ModeName) && !(e is MinorModes)
}

/// What one registry-independent element renders to; the two
/// registry-dependent elements render here as nothing.
pub open spec fn spec_render_piece(
    e: ModeLineElement,
    buffer_name: Seq<char>,
    modified: bool,
    read_only: bool,
    line: u64,
    col: u64,
    percent: u8,
) -> Seq<char> {
    match e {
        ModeLineElement::Literal(s) => s@,
        ModeLineElement::BufferName => buffer_name,
        ModeLineElement::ModeName => Seq::empty(),
        ModeLineElement::MinorModes => Seq::empty(),
        ModeLineElement::Position => spec_decimal(line as nat) + ":"@ + spec_decimal(col as nat),
        ModeLineElement::Percentage => {
            if percent == 0 {
                "Top"@
            } else if percent >= 100 {
                "Bot"@
            } else {
                spec_decimal(percent as nat) + "%"@
            }
        },
        ModeLineElement::Modified => {
            if read_only {
                "%%"@
            } else if modified {
                "**"@
            } else {
                "--"@
            }
        },
        ModeLineElement::ReadOnly => {
            if read_only {
                "%%"@
            } else {
                "--"@
            }
        },
        ModeLineElement::Encoding => "U"@,
        ModeLineElement::Eol => ":LF"@,
        ModeLineElement::Custom(e2) => "["@ + e2@ + "]"@,
    }
}

/// What a whole list of registry-independent elements renders to.
pub open spec fn spec_render_simple(
    elems: Seq<ModeLineElement>,
    buffer_name: Seq<char>,
    modified: bool,
    read_only: bool,
    line: u64,
    col: u64,
    percent: u8,
) -> Seq<char>
    decreases elems.len(),
{
    if elems.len() == 0 {
        Seq::empty()
    } else {
        spec_render_piece(elems[0], buffer_name, modified, read_only, line, col, percent)
            + spec_render_simple(
            elems.drop_first(),
            buffer_name,
            modified,
            read_only,
            line,
            col,
            percent,
        )
    }
}

/// Rendering splits over concatenation of element lists.
proof fn lemma_render_concat(
    a: Seq<ModeLineElement>,
    b: Seq<ModeLineElement>,
    buffer_name: Seq<char>,
    modified: bool,
    read_only: bool,
    line: u64,
    col: u64,
    percent: u8,
)
    ensures
        spec_render_simple(a + b, buffer_name, modified, read_only, line, col, percent)
            == spec_render_simple(a, buffer_name, modified, read_only, line, col, percent)
            + spec_render_simple(b, buffer_name, modified, read_only, line, col, percent),
    decreases a.len(),
{
    if a.len() == 0 {
        assert(a + b =~= b);
        assert(spec_render_simple(a, buffer_name, modified, read_only, line, col, percent)
            =~= Seq::<char>::empty());
        assert(spec_render_simple(a, buffer_name, modified, read_only, line, col, percent)
            + spec_render_simple(b, buffer_name, modified, read_only, line, col, percent)
            =~= spec_render_simple(b, buffer_name, modified, read_only, line, col, percent));
    } else {
        assert((a + b).drop_first() =~= a.drop_first() + b);
        lemma_render_concat(a.drop_first(), b, buffer_name, modified, read_only, line, col, percent);
        assert(spec_render_simple(a + b, buffer_name, modified, read_only, line, col, percent)
            =~= spec_render_simple(a, buffer_name, modified, read_only, line, col, percent)
            + spec_render_simple(b, buffer_name, modified, read_only, line, col, percent));
    }
}

impl ModeLineFormat {
    /// The standard default mode-line format.
    pub fn default_format() -> (r: ModeLineFormat)
        ensures
            r.elements@.len() == 12,
    {
        let mut elements: Vec<ModeLineElement> = Vec::new();
        elements.push(ModeLineElement::Literal(" ".to_owned()));
        elements.push(ModeLineElement::Modified);
        elements.push(ModeLineElement::Literal(" ".to_owned()));
        elements.push(ModeLineElement::BufferName);
        elements.push(ModeLineElement::Literal("  ".to_owned()));
        elements.push(ModeLineElement::Position);
        elements.push(ModeLineElement::Literal("  ".to_owned()));
        elements.push(ModeLineElement::Percentage);
        elements.push(ModeLineElement::Literal("  (".to_owned()));
        elements.push(ModeLineElement::ModeName);
        elements.push(ModeLineElement::MinorModes);
        elements.push(ModeLineElement::Literal(")".to_owned()));
        ModeLineFormat { elements }
    }

    /// Render the mode line for a buffer. For the registry-independent
    /// elements the output is exactly the concatenation of their
    /// pieces; the mode-name element renders the major mode's pretty
    /// name and the minor-modes element the active lighters.
    pub fn render(
        &self,
        buffer_id: u64,
        registry: &ModeRegistry,
        buffer_name: &str,
        modified: bool,
        read_only: bool,
        line: u64,
        col: u64,
        percent: u8,
    ) -> (r: String)
        ensures
            (forall|j: int|
                0 <= j < self.elements@.len() ==> spec_simple_element(
                    #[trigger] self.elements@[j],
                )) ==> r@ == spec_render_simple(
                self.elements@,
                buffer_name@,
                modified,
                read_only,
                line,
                col,
                percent,
            ),
    {
        let ghost all_simple = forall|j: int|
            0 <= j < self.elements@.len() ==> spec_simple_element(#[trigger] self.elements@[j]);
        let mut out = String::new();
        let n = self.elements.len();
        let mut i: usize = 0;
        while i < n
            invariant
                i <= n,
                n == self.elements@.len(),
                all_simple == (forall|j: int|
                    0 <= j < self.elements@.len() ==> spec_simple_element(
                        #[trigger] self.elements@[j],
                    )),
                all_simple ==> out@ == spec_render_simple(
                    self.elements@.take(i as int),
                    buffer_name@,
                    modified,
                    read_only,
                    line,
                    col,
                    percent,
                ),
            decreases n - i,
        {
            let ghost pre = out@;
            let ghost piece = spec_render_piece(
                self.elements@[i as int],
                buffer_name@,
                modified,
                read_only,
                line,
                col,
                percent,
            );
            match &self.elements[i] {
                ModeLineElement::Literal(s) => {
                    let sv = s.clone();
                    string_push_str(&mut out, sv.as_str());
                },
                ModeLineElement::BufferName => {
                    string_push_str(&mut out, buffer_name);
                },
                ModeLineElement::ModeName => {
                    let major = registry.get_major_mode(buffer_id);
                    match registry.get_major_mode_def(major.as_str()) {
                        Some(m) => {
                            let p = m.pretty_name.clone();
                            string_push_str(&mut out, p.as_str());
                        },
                        None => {
                            string_push_str(&mut out, major.as_str());
                        },
                    }
                },
                ModeLineElement::MinorModes => {
                    let minors = registry.active_minor_modes(buffer_id);
                    let mn = minors.len();
                    let mut k: usize = 0;
                    while k < mn
                        invariant
                            k <= mn,
                            mn == minors@.len(),
                        decreases mn - k,
                    {
                        match registry.get_minor_mode_def(minors[k].as_str()) {
                            Some(m) => {
                                match &m.lighter {
                                    Some(l) => {
                                        let lv = l.clone();
                                        string_push_str(&mut out, lv.as_str());
                                    },
                                    None => {},
                                }
                            },
                            None => {},
                        }
                        k = k + 1;
                    }
                },
                ModeLineElement::Position => {
                    let ls = u64_to_decimal(line);
                    string_push_str(&mut out, ls.as_str());
                    string_push_str(&mut out, ":");
                    let cs = u64_to_decimal(col);
                    string_push_str(&mut out, cs.as_str());
                },
                ModeLineElement::Percentage => {
                    if percent == 0 {
                        string_push_str(&mut out, "Top");
                    } else if percent >= 100 {
                        string_push_str(&mut out, "Bot");
                    } else {
                        let ps = u64_to_decimal(percent as u64);
                        string_push_str(&mut out, ps.as_str());
                        string_push_str(&mut out, "%");
                    }
                },
                ModeLineElement::Modified => {
                    if read_only {
                        string_push_str(&mut out, "%%");
                    } else if modified {
                        string_push_str(&mut out, "**");
                    } else {
                        string_push_str(&mut out, "--");
                    }
                },
                ModeLineElement::ReadOnly => {
                    if read_only {
                        string_push_str(&mut out, "%%");
                    } else {
                        string_push_str(&mut out, "--");
                    }
                },
                ModeLineElement::Encoding => {
                    string_push_str(&mut out, "U");
                },
                ModeLineElement::Eol => {
                    string_push_str(&mut out, ":LF");
                },
                ModeLineElement::Custom(expr) => {
                    string_push_str(&mut out, "[");
                    let ev = expr.clone();
                    string_push_str(&mut out, ev.as_str());
                    string_push_str(&mut out, "]");
                },
            }
            proof {
                if all_simple {
                    assert(spec_simple_element(self.elements@[i as int]));
                    assert(out@ =~= pre + piece);
                    assert(self.elements@.take(i as int + 1) =~= self.elements@.take(i as int)
                        + seq![self.elements@[i as int]]);
                    lemma_render_concat(
                        self.elements@.take(i as int),
                        seq![self.elements@[i as int]],
                        buffer_name@,
                        modified,
                        read_only,
                        line,
                        col,
                        percent,
                    );
                    assert(spec_render_simple(
                        seq![self.elements@[i as int]],
                        buffer_name@,
                        modified,
                        read_only,
                        line,
                        col,
                        percent,
                    ) =~= piece) by {
                        assert(seq![self.elements@[i as int]].drop_first() =~= Seq::<
                            ModeLineElement,
                        >::empty());
                        assert(spec_render_simple(
                            Seq::<ModeLineElement>::empty(),
                            buffer_name@,
                            modified,
                            read_only,
                            line,
                            col,
                            percent,
                        ) =~= Seq::<char>::empty());
                        assert(piece + Seq::<char>::empty() =~= piece);
                    }
                }
            }
            i = i + 1;
        }
        proof {
            assert(self.elements@.take(n as int) =~= self.elements@);
        }
        out
    }
}

/// Fold the `incoming` names onto `acc`, appending each name not
/// already present.
pub open spec fn spec_add_names(acc: Seq<Seq<char>>, incoming: Seq<Seq<char>>) -> Seq<Seq<char>>
    decreases incoming.len(),
{
    if incoming.len() == 0 {
        acc
    } else {
        let acc2 = if spec_has_name(acc, incoming[0]) {
            acc
        } else {
            acc.push(incoming[0])
        };
        spec_add_names(acc2, incoming.drop_first())
    }
}

/// Folding one more name on the end adds it exactly when the result so
/// far does not hold it yet.
proof fn lemma_add_names_snoc(acc: Seq<Seq<char>>, incoming: Seq<Seq<char>>, x: Seq<char>)
    ensures
        spec_add_names(acc, incoming + seq![x]) == (if spec_has_name(
            spec_add_names(acc, incoming),
            x,
        ) {
            spec_add_names(acc, incoming)
        } else {
            spec_add_names(acc, incoming).push(x)
        }),
    decreases incoming.len(),
{
    if incoming.len() == 0 {
        assert(incoming + seq![x] =~= seq![x]);
        assert(seq![x].drop_first() =~= Seq::<Seq<char>>::empty());
        let acc2 = if spec_has_name(acc, x) {
            acc
        } else {
            acc.push(x)
        };
        assert(spec_add_names(acc2, Seq::<Seq<char>>::empty()) == acc2);
        assert(spec_add_names(acc, incoming) == acc);
    } else {
        let acc2 = if spec_has_name(acc, incoming[0]) {
            acc
        } else {
            acc.push(incoming[0])
        };
        assert((incoming + seq![x]).len() > 0);
        assert((incoming + seq![x])[0] == incoming[0]);
        assert((incoming + seq![x]).drop_first() =~= incoming.drop_first() + seq![x]);
        lemma_add_names_snoc(acc2, incoming.drop_first(), x);
    }
}

} // verus!
