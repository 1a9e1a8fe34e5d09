//! The setup form of a relay.

use crate::display::spans_of;
use crate::display::Span;
use crate::display::SpanView;
use crate::form::check_url;
use crate::form::choice_row;
use crate::form::is_url;
use crate::form::show_choice_row;
use crate::form::show_text_row;
use crate::form::text_row;
use crate::form::FormKey;
use crate::relay::config::RelayConfig;
use crate::relay::config::RelayConfigView;
use crate::text::dec;
use crate::text::dec_text;
use crate::text::opt_text;
use crate::text::parse_number;
use crate::text::parsed_number;
use crate::text::pop_last;
use crate::text::without_last;
use crate::types::NodeType;
use vstd::prelude::*;
use vstd::string::*;

verus! {

/// The width of the labels in the form.
pub const LABEL_WIDTH: usize = 16;

/// A field of the form.
#[derive(Debug, Clone, Copy, PartialEq, Eq, Structural)]
pub enum Field {
    NodeType,
    Port,
    Host,
    DirectoryUrl,
    Bandwidth,
    Heartbeat,
    ExitAllowAll,
    OperatorId,
}

impl Field {
    /// The label of the field.
    pub open spec fn label_text(self) -> Seq<char> {
        match self {
            Field::NodeType => "Node Type"@,
            Field::Port => "Port"@,
            Field::Host => "Host"@,
            Field::DirectoryUrl => "Directory URL"@,
            Field::Bandwidth => "Bandwidth"@,
            Field::Heartbeat => "Heartbeat (s)"@,
            Field::ExitAllowAll => "Exit Allow All"@,
            Field::OperatorId => "Operator ID"@,
        }
    }

    /// The label of the field.
    pub fn label(self) -> (r: &'static str)
        ensures
            r@ == self.label_text(),
    {
        match self {
            Field::NodeType => "Node Type",
            Field::Port => "Port",
            Field::Host => "Host",
            Field::DirectoryUrl => "Directory URL",
            Field::Bandwidth => "Bandwidth",
            Field::Heartbeat => "Heartbeat (s)",
            Field::ExitAllowAll => "Exit Allow All",
            Field::OperatorId => "Operator ID",
        }
    }

    /// Whether text is typed into the field; the others offer a choice.
    pub open spec fn takes_text(self) -> bool {
        self != Field::NodeType && self != Field::ExitAllowAll
    }

    /// Whether text is typed into the field.
    pub fn is_text(self) -> (r: bool)
        ensures
            r == self.takes_text(),
    {
        match self {
            Field::NodeType | Field::ExitAllowAll => false,
            _ => true,
        }
    }
}

/// What the form holds.
#[derive(Debug)]
pub struct WizardState {
    /// The row that the keys go to.
    pub focused: usize,
    /// Which type of node is chosen: entry, middle or exit.
    pub node_type_idx: usize,
    pub port: String,
    pub host: String,
    pub directory_url: String,
    pub bandwidth: String,
    pub heartbeat: String,
    pub exit_allow_all: bool,
    pub operator_id: String,
    /// What was wrong when the form was last sent.
    pub error: Option<String>,
}

/// What the form holds.
#[verifier::ext_equal]
pub struct WizardView {
    pub focused: usize,
    pub node_type_idx: usize,
    pub port: Seq<char>,
    pub host: Seq<char>,
    pub directory_url: Seq<char>,
    pub bandwidth: Seq<char>,
    pub heartbeat: Seq<char>,
    pub exit_allow_all: bool,
    pub operator_id: Seq<char>,
    pub error: Option<Seq<char>>,
}

impl View for WizardState {
    type V = WizardView;

    open spec fn view(&self) -> WizardView {
        WizardView {
            focused: self.focused,
            node_type_idx: self.node_type_idx,
            port: self.port@,
            host: self.host@,
            directory_url: self.directory_url@,
            bandwidth: self.bandwidth@,
            heartbeat: self.heartbeat@,
            exit_allow_all: self.exit_allow_all,
            operator_id: self.operator_id@,
            error: opt_text(self.error),
        }
    }
}

/// The type of node at a place in the choice.
pub open spec fn chosen_type(index: usize) -> Option<NodeType> {
    if index == 0 {
        Some(NodeType::Entry)
    } else if index == 1 {
        Some(NodeType::Middle)
    } else if index == 2 {
        Some(NodeType::Exit)
    } else {
        None
    }
}

/// The place of a type of node in the choice.
pub open spec fn type_place(node_type: Option<NodeType>) -> usize {
    match node_type {
        Some(NodeType::Middle) => 1,
        Some(NodeType::Exit) => 2,
        _ => 0,
    }
}

/// The form for these settings.
pub open spec fn form_for(config: RelayConfigView) -> WizardView {
    WizardView {
        focused: 0,
        node_type_idx: type_place(config.node_type),
        port: dec_text(config.port as nat),
        host: config.host,
        directory_url: config.directory_url,
        bandwidth: dec_text(config.bandwidth as nat),
        heartbeat: dec_text(config.heartbeat_interval as nat),
        exit_allow_all: config.node_type == Some(NodeType::Exit) && config.exit_allow_all,
        operator_id: match config.operator_id {
            Some(id) => id,
            None => ""@,
        },
        error: None,
    }
}

impl WizardView {
    /// The fields that the form shows: an exit has one more.
    pub open spec fn fields(self) -> Seq<Field> {
        if self.node_type_idx == 2 {
            seq![
                Field::NodeType,
                Field::Port,
                Field::Host,
                Field::DirectoryUrl,
                Field::Bandwidth,
                Field::Heartbeat,
                Field::ExitAllowAll,
                Field::OperatorId,
            ]
        } else {
            seq![
                Field::NodeType,
                Field::Port,
                Field::Host,
                Field::DirectoryUrl,
                Field::Bandwidth,
                Field::Heartbeat,
                Field::OperatorId,
            ]
        }
    }

    /// The field that the keys go to.
    pub open spec fn field(self) -> Option<Field> {
        if self.focused < self.fields().len() {
            Some(self.fields()[self.focused as int])
        } else {
            None
        }
    }

    /// The text in a field.
    pub open spec fn text_of(self, field: Field) -> Seq<char> {
        match field {
            Field::Port => self.port,
            Field::Host => self.host,
            Field::DirectoryUrl => self.directory_url,
            Field::Bandwidth => self.bandwidth,
            Field::Heartbeat => self.heartbeat,
            Field::OperatorId => self.operator_id,
            _ => ""@,
        }
    }

    /// The form with this text in a field.
    pub open spec fn with_text(self, field: Field, text: Seq<char>) -> WizardView {
        match field {
            Field::Port => WizardView { port: text, ..self },
            Field::Host => WizardView { host: text, ..self },
            Field::DirectoryUrl => WizardView { directory_url: text, ..self },
            Field::Bandwidth => WizardView { bandwidth: text, ..self },
            Field::Heartbeat => WizardView { heartbeat: text, ..self },
            Field::OperatorId => WizardView { operator_id: text, ..self },
            _ => self,
        }
    }

    /// The form after a step up.
    pub open spec fn after_up(self) -> WizardView {
        if self.focused > 0 {
            WizardView { focused: (self.focused - 1) as usize, ..self }
        } else {
            self
        }
    }

    /// The form after a step down.
    pub open spec fn after_down(self) -> WizardView {
        if self.focused < self.fields().len() - 1 {
            WizardView { focused: (self.focused + 1) as usize, ..self }
        } else {
            self
        }
    }

    /// The form after the choice moved to the left.
    pub open spec fn after_left(self) -> WizardView {
        match self.field() {
            Some(Field::NodeType) if self.node_type_idx > 0 => WizardView {
                node_type_idx: (self.node_type_idx - 1) as usize,
                ..self
            },
            Some(Field::ExitAllowAll) => WizardView { exit_allow_all: false, ..self },
            _ => self,
        }
    }

    /// The form after the choice moved to the right.
    pub open spec fn after_right(self) -> WizardView {
        match self.field() {
            Some(Field::NodeType) if self.node_type_idx < 2 => WizardView {
                node_type_idx: (self.node_type_idx + 1) as usize,
                ..self
            },
            Some(Field::ExitAllowAll) => WizardView { exit_allow_all: true, ..self },
            _ => self,
        }
    }

    /// The form after a character was typed.
    pub open spec fn after_char(self, c: char) -> WizardView {
        match self.field() {
            Some(field) if field.takes_text() => WizardView {
                error: None,
                ..self.with_text(field, self.text_of(field).push(c))
            },
            _ => self,
        }
    }

    /// The form after the last character was deleted.
    pub open spec fn after_delete(self) -> WizardView {
        match self.field() {
            Some(field) if field.takes_text() => WizardView {
                error: None,
                ..self.with_text(field, without_last(self.text_of(field)))
            },
            _ => self,
        }
    }

    /// What is wrong with the form. Whether the host is an IP address is said by `host_ok`.
    pub open spec fn complaint(self, host_ok: bool) -> Option<Seq<char>> {
        let port = parsed_number(self.port, u16::MAX as nat);
        let bandwidth = parsed_number(self.bandwidth, u64::MAX as nat);
        let heartbeat = parsed_number(self.heartbeat, u64::MAX as nat);
        if chosen_type(self.node_type_idx) is None {
            Some("Node type is required"@)
        } else if port is None || port->0 == 0 {
            Some("Port must be 1\u{2013}65535"@)
        } else if !host_ok {
            Some("Host must be a valid IP address"@)
        } else if !is_url(self.directory_url) {
            Some("Directory URL must start with http:// or https://"@)
        } else if bandwidth is None || bandwidth->0 == 0 {
            Some("Bandwidth must be > 0"@)
        } else if heartbeat is None || heartbeat->0 == 0 {
            Some("Heartbeat must be > 0"@)
        } else {
            None
        }
    }

    /// The settings that a form with nothing wrong stands for.
    pub open spec fn settings(self) -> RelayConfigView {
        RelayConfigView {
            node_type: chosen_type(self.node_type_idx),
            port: parsed_number(self.port, u16::MAX as nat)->0 as u16,
            host: self.host,
            directory_url: self.directory_url,
            bandwidth: parsed_number(self.bandwidth, u64::MAX as nat)->0 as u64,
            heartbeat_interval: parsed_number(self.heartbeat, u64::MAX as nat)->0 as u64,
            exit_allow_all: self.exit_allow_all,
            tui: true,
            bind_host: "0.0.0.0"@,
            operator_id: if self.operator_id.len() == 0 {
                None
            } else {
                Some(self.operator_id)
            },
        }
    }

    /// What the form reads in the row of a field.
    pub open spec fn row(self, field: Field, focused: bool) -> Seq<SpanView> {
        match field {
            Field::NodeType => choice_row(
                field.label_text(),
                LABEL_WIDTH as nat,
                if self.node_type_idx == 1 {
                    "\u{25c4}  Middle  \u{25ba}"@
                } else if self.node_type_idx == 2 {
                    "\u{25c4}  Exit  \u{25ba}"@
                } else {
                    "\u{25c4}  Entry  \u{25ba}"@
                },
                focused,
            ),
            Field::ExitAllowAll => choice_row(
                field.label_text(),
                LABEL_WIDTH as nat,
                if self.exit_allow_all {
                    "\u{25c4}  Yes  \u{25ba}"@
                } else {
                    "\u{25c4}  No  \u{25ba}"@
                },
                focused,
            ),
            _ => text_row(field.label_text(), LABEL_WIDTH as nat, self.text_of(field), focused),
        }
    }

    /// What comes of a key.
    pub open spec fn after_key(self, key: FormKey, host_ok: bool) -> (WizardView, FormStepView) {
        match key {
            FormKey::Escape => (self, FormStepView::Quit),
            FormKey::Up => (self.after_up(), FormStepView::Stay),
            FormKey::Down => (self.after_down(), FormStepView::Stay),
            FormKey::Left => (self.after_left(), FormStepView::Stay),
            FormKey::Right => (self.after_right(), FormStepView::Stay),
            FormKey::Backspace => (self.after_delete(), FormStepView::Stay),
            FormKey::Char(c) => (self.after_char(c), FormStepView::Stay),
            FormKey::Enter => (
                WizardView { error: self.complaint(host_ok), ..self },
                if self.complaint(host_ok) is None {
                    FormStepView::Launch(self.settings())
                } else {
                    FormStepView::Stay
                },
            ),
            FormKey::Other => (self, FormStepView::Stay),
        }
    }
}

/// What comes of a key: the form stays, the program ends, or the relay starts.
#[derive(Debug)]
pub enum FormStep {
    Stay,
    Quit,
    Launch(RelayConfig),
}

/// What comes of a key.
pub enum FormStepView {
    Stay,
    Quit,
    Launch(RelayConfigView),
}

impl View for FormStep {
    type V = FormStepView;

    open spec fn view(&self) -> FormStepView {
        match *self {
            FormStep::Stay => FormStepView::Stay,
            FormStep::Quit => FormStepView::Quit,
            FormStep::Launch(config) => FormStepView::Launch(config@),
        }
    }
}

impl WizardState {
    /// The form for these settings.
    pub fn new(defaults: &RelayConfig) -> (r: Self)
        ensures
            r@ == form_for(defaults@),
    {
        let node_type_idx: usize = match defaults.node_type {
            Some(NodeType::Middle) => 1,
            Some(NodeType::Exit) => 2,
            _ => 0,
        };
        let exit_allow_all = match defaults.node_type {
            Some(NodeType::Exit) => defaults.exit_allow_all,
            _ => false,
        };
        Self {
            focused: 0,
            node_type_idx,
            port: dec(defaults.port as u64),
            host: defaults.host.clone(),
            directory_url: defaults.directory_url.clone(),
            bandwidth: dec(defaults.bandwidth),
            heartbeat: dec(defaults.heartbeat_interval),
            exit_allow_all,
            operator_id: match &defaults.operator_id {
                Some(id) => id.clone(),
                None => "".to_owned(),
            },
            error: None,
        }
    }

    /// The fields that the form shows: an exit has one more.
    pub fn active_fields(&self) -> (r: Vec<Field>)
        ensures
            r@ == self@.fields(),
    {
        let mut fields: Vec<Field> = Vec::new();
        fields.push(Field::NodeType);
        fields.push(Field::Port);
        fields.push(Field::Host);
        fields.push(Field::DirectoryUrl);
        fields.push(Field::Bandwidth);
        fields.push(Field::Heartbeat);
        if self.node_type_idx == 2 {
            fields.push(Field::ExitAllowAll);
        }
        fields.push(Field::OperatorId);
        proof {
            assert(fields@ =~= self@.fields());
        }
        fields
    }

    /// The field that the keys go to.
    pub fn current(&self) -> (r: Option<Field>)
        ensures
            r == self@.field(),
    {
        let fields = self.active_fields();
        if self.focused < fields.len() {
            Some(fields[self.focused])
        } else {
            None
        }
    }

    /// Moves to the field above.
    pub fn up(&mut self)
        ensures
            final(self)@ == old(self)@.after_up(),
    {
        if self.focused > 0 {
            self.focused -= 1;
        }
    }

    /// Moves to the field below.
    pub fn down(&mut self)
        ensures
            final(self)@ == old(self)@.after_down(),
    {
        let fields = self.active_fields();
        if self.focused < fields.len() - 1 {
            self.focused += 1;
        }
    }

    /// Moves the choice to the left.
    pub fn left(&mut self)
        ensures
            final(self)@ == old(self)@.after_left(),
    {
        match self.current() {
            Some(Field::NodeType) => {
                if self.node_type_idx > 0 {
                    self.node_type_idx -= 1;
                }
            },
            Some(Field::ExitAllowAll) => {
                self.exit_allow_all = false;
            },
            _ => {},
        }
    }

    /// Moves the choice to the right.
    pub fn right(&mut self)
        ensures
            final(self)@ == old(self)@.after_right(),
    {
        match self.current() {
            Some(Field::NodeType) => {
                if self.node_type_idx < 2 {
                    self.node_type_idx += 1;
                }
            },
            Some(Field::ExitAllowAll) => {
                self.exit_allow_all = true;
            },
            _ => {},
        }
    }

    /// The text in a field.
    pub fn text_in(&self, field: Field) -> (r: String)
        ensures
            r@ == self@.text_of(field),
    {
        match field {
            Field::Port => self.port.clone(),
            Field::Host => self.host.clone(),
            Field::DirectoryUrl => self.directory_url.clone(),
            Field::Bandwidth => self.bandwidth.clone(),
            Field::Heartbeat => self.heartbeat.clone(),
            Field::OperatorId => self.operator_id.clone(),
            _ => "".to_owned(),
        }
    }

    fn set_text(&mut self, field: Field, text: String)
        ensures
            final(self)@ == old(self)@.with_text(field, text@),
    {
        match field {
            Field::Port => self.port = text,
            Field::Host => self.host = text,
            Field::DirectoryUrl => self.directory_url = text,
            Field::Bandwidth => self.bandwidth = text,
            Field::Heartbeat => self.heartbeat = text,
            Field::OperatorId => self.operator_id = text,
            _ => {},
        }
    }

    /// Types a character into the field.
    pub fn push_char(&mut self, c: char)
        ensures
            final(self)@ == old(self)@.after_char(c),
    {
        if let Some(field) = self.current() {
            if field.is_text() {
                let mut text = self.text_in(field);
                text.push(c);
                self.set_text(field, text);
                self.error = None;
            }
        }
    }

    /// Deletes the last character of the field.
    pub fn pop_char(&mut self)
        ensures
            final(self)@ == old(self)@.after_delete(),
    {
        if let Some(field) = self.current() {
            if field.is_text() {
                let text = pop_last(self.text_in(field).as_str());
                self.set_text(field, text);
                self.error = None;
            }
        }
    }

    /// The settings that the form stands for, or the first thing wrong with it, which the form
    /// then shows. Whether the host is an IP address is said by `host_ok`.
    pub fn validate(&mut self, host_ok: bool) -> (r: Option<RelayConfig>)
        ensures
            final(self)@ == (WizardView { error: old(self)@.complaint(host_ok), ..old(self)@ }),
            match r {
                Some(config) => old(self)@.complaint(host_ok) is None && config@
                    == old(self)@.settings(),
                None => old(self)@.complaint(host_ok) is Some,
            },
    {
        let node_type = match self.node_type_idx {
            0 => NodeType::Entry,
            1 => NodeType::Middle,
            2 => NodeType::Exit,
            _ => {
                self.error = Some("Node type is required".to_owned());
                return None;
            },
        };
        let port: u64 = match parse_number(self.port.as_str(), 65535) {
            Some(p) => p,
            None => 0,
        };
        if port == 0 {
            self.error = Some("Port must be 1\u{2013}65535".to_owned());
            return None;
        }
        if !host_ok {
            self.error = Some("Host must be a valid IP address".to_owned());
            return None;
        }
        if !check_url(self.directory_url.as_str()) {
            self.error = Some("Directory URL must start with http:// or https://".to_owned());
            return None;
        }
        let bandwidth: u64 = match parse_number(self.bandwidth.as_str(), u64::MAX) {
            Some(b) => b,
            None => 0,
        };
        if bandwidth == 0 {
            self.error = Some("Bandwidth must be > 0".to_owned());
            return None;
        }
        let heartbeat_interval: u64 = match parse_number(self.heartbeat.as_str(), u64::MAX) {
            Some(h) => h,
            None => 0,
        };
        if heartbeat_interval == 0 {
            self.error = Some("Heartbeat must be > 0".to_owned());
            return None;
        }
        self.error = None;
        let config = RelayConfig {
            node_type: Some(node_type),
            port: port as u16,
            host: self.host.clone(),
            directory_url: self.directory_url.clone(),
            bandwidth,
            heartbeat_interval,
            exit_allow_all: self.exit_allow_all,
            tui: true,
            bind_host: "0.0.0.0".to_owned(),
            operator_id: if self.operator_id.as_str().is_empty() {
                None
            } else {
                Some(self.operator_id.clone())
            },
        };
        Some(config)
    }

    /// What comes of a key. Whether the host is an IP address is said by `host_ok`.
    pub fn press(&mut self, key: FormKey, host_ok: bool) -> (r: FormStep)
        ensures
            (final(self)@, r@) == old(self)@.after_key(key, host_ok),
    {
        match key {
            FormKey::Escape => {
                return FormStep::Quit;
            },
            FormKey::Up => self.up(),
            FormKey::Down => self.down(),
            FormKey::Left => self.left(),
            FormKey::Right => self.right(),
            FormKey::Backspace => self.pop_char(),
            FormKey::Char(c) => self.push_char(c),
            FormKey::Enter => {
                if let Some(config) = self.validate(host_ok) {
                    return FormStep::Launch(config);
                }
            },
            FormKey::Other => {},
        }
        FormStep::Stay
    }

    /// The row of a field.
    pub fn show_row(&self, field: Field, focused: bool) -> (r: Vec<Span>)
        ensures
            spans_of(r@) == self@.row(field, focused),
    {
        match field {
            Field::NodeType => {
                let value = match self.node_type_idx {
                    1 => "\u{25c4}  Middle  \u{25ba}",
                    2 => "\u{25c4}  Exit  \u{25ba}",
                    _ => "\u{25c4}  Entry  \u{25ba}",
                };
                show_choice_row(field.label(), LABEL_WIDTH, value.to_owned(), focused)
            },
            Field::ExitAllowAll => {
                let value = if self.exit_allow_all {
                    "\u{25c4}  Yes  \u{25ba}"
                } else {
                    "\u{25c4}  No  \u{25ba}"
                };
                show_choice_row(field.label(), LABEL_WIDTH, value.to_owned(), focused)
            },
            _ => show_text_row(field.label(), LABEL_WIDTH, self.text_in(field), focused),
        }
    }

    /// The rows of the form.
    pub fn show_rows(&self) -> (r: Vec<Vec<Span>>)
        ensures
            r@.len() == self@.fields().len(),
            forall|i: int|
                0 <= i < r@.len() ==> spans_of((#[trigger] r@[i])@) == self@.row(
                    self@.fields()[i],
                    i == self.focused,
                ),
    {
        let fields = self.active_fields();
        let mut r: Vec<Vec<Span>> = Vec::new();
        while r.len() < fields.len()
            invariant
                fields@ == self@.fields(),
                r@.len() <= fields@.len(),
                forall|i: int|
                    0 <= i < r@.len() ==> spans_of((#[trigger] r@[i])@) == self@.row(
                        fields@[i],
                        i == self.focused,
                    ),
            decreases fields@.len() - r@.len(),
        {
            r.push(self.show_row(fields[r.len()], r.len() == self.focused));
        }
        r
    }
}

/// Settings that were valid come out of the form as they went in, but that the dashboard is
/// shown, the relay binds to every address, and only an exit can allow every destination.
pub proof fn valid_settings_pass_the_form(config: RelayConfigView)
    requires
        config.node_type is Some,
        config.port > 0,
        config.bandwidth > 0,
        config.heartbeat_interval > 0,
        is_url(config.directory_url),
        config.operator_id != Some(Seq::<char>::empty()),
    ensures
        form_for(config).complaint(true) is None,
        form_for(config).settings() == (RelayConfigView {
            tui: true,
            bind_host: "0.0.0.0"@,
            exit_allow_all: config.node_type == Some(NodeType::Exit) && config.exit_allow_all,
            ..config
        }),
{
    crate::text::numerals_read_back(config.port as nat, u16::MAX as nat);
    crate::text::numerals_read_back(config.bandwidth as nat, u64::MAX as nat);
    crate::text::numerals_read_back(config.heartbeat_interval as nat, u64::MAX as nat);
    reveal_strlit("");
    if let Some(id) = config.operator_id {
        if id.len() == 0 {
            assert(id =~= Seq::<char>::empty());
        }
    }
}

/// Deleting takes back what was typed.
pub proof fn deleting_undoes_typing(form: WizardView, c: char)
    requires
        form.error is None,
    ensures
        form.after_char(c).after_delete() == form,
{
    if let Some(field) = form.field() {
        if field.takes_text() {
            let text = form.text_of(field);
            assert(without_last(text.push(c)) =~= text);
            assert(form.after_char(c).fields() =~= form.fields());
        }
    }
}

/// A relay starts only from a form that is in order, and with the settings that stand in it: the
/// type that is chosen, a host that is an address, a URL of HTTP, and the port, the bandwidth and
/// the time between heartbeats as they are read from the fields, none of them zero. No other key
/// than Enter starts it.
pub proof fn launched_relays_have_valid_settings(form: WizardView, key: FormKey, host_ok: bool)
    ensures
        ({
            let (after, step) = form.after_key(key, host_ok);
            &&& step is Launch ==> {
                let config = step->Launch_0;
                &&& key == FormKey::Enter
                &&& host_ok
                &&& config.node_type is Some
                &&& form.node_type_idx == 0 <==> config.node_type == Some(NodeType::Entry)
                &&& form.node_type_idx == 1 <==> config.node_type == Some(NodeType::Middle)
                &&& form.node_type_idx == 2 <==> config.node_type == Some(NodeType::Exit)
                &&& config.host == form.host
                &&& config.directory_url == form.directory_url
                &&& "http://"@.is_prefix_of(config.directory_url) || "https://"@.is_prefix_of(
                    config.directory_url,
                )
                &&& parsed_number(form.port, 65535) == Some(config.port as nat)
                &&& parsed_number(form.bandwidth, u64::MAX as nat) == Some(config.bandwidth as nat)
                &&& parsed_number(form.heartbeat, u64::MAX as nat) == Some(
                    config.heartbeat_interval as nat,
                )
                &&& config.port > 0
                &&& config.bandwidth > 0
                &&& config.heartbeat_interval > 0
                &&& config.exit_allow_all == form.exit_allow_all
                &&& form.operator_id.len() > 0 ==> config.operator_id == Some(form.operator_id)
                &&& form.operator_id.len() == 0 ==> config.operator_id is None
                &&& config.tui
            }
            &&& key == FormKey::Enter && !(step is Launch) ==> after.error is Some && step is Stay
            &&& step is Quit <==> key == FormKey::Escape
            &&& form.node_type_idx <= 2 ==> after.node_type_idx <= 2
        }),
{
}

/// A character that is typed goes behind the text of the field in focus, and to no other field; on a
/// field with a choice it changes nothing. The arrows to the sides change the choice in focus by one
/// step, or nothing; steps up and down go from row to row, stay in the form, and change no text.
pub proof fn keys_go_to_the_field_in_focus(form: WizardView, c: char, other: Field)
    requires
        form.focused < form.fields().len(),
        form.node_type_idx <= 2,
        other.takes_text(),
    ensures
        form.field() is Some,
        form.fields().len() == (if form.node_type_idx == 2 {
            8nat
        } else {
            7
        }),
        ({
            let field = form.field()->0;
            let typed = form.after_char(c);
            let deleted = form.after_delete();
            &&& field.takes_text() ==> typed.text_of(field) == form.text_of(field).push(c)
            &&& !field.takes_text() ==> typed == form && deleted == form
            &&& other != field ==> typed.text_of(other) == form.text_of(other)
                && deleted.text_of(other) == form.text_of(other)
            &&& field.takes_text() && form.text_of(field).len() > 0 ==> deleted.text_of(field)
                == form.text_of(field).drop_last()
            &&& field == Field::NodeType && form.node_type_idx < 2
                ==> form.after_right().node_type_idx == form.node_type_idx + 1
            &&& field == Field::NodeType && form.node_type_idx > 0
                ==> form.after_left().node_type_idx == form.node_type_idx - 1
            &&& field == Field::ExitAllowAll ==> form.after_right().exit_allow_all
                && !form.after_left().exit_allow_all
            &&& field != Field::NodeType ==> form.after_right().node_type_idx
                == form.node_type_idx && form.after_left().node_type_idx == form.node_type_idx
            &&& field != Field::ExitAllowAll ==> form.after_right().exit_allow_all
                == form.exit_allow_all && form.after_left().exit_allow_all == form.exit_allow_all
        }),
        form.after_up().text_of(other) == form.text_of(other),
        form.after_down().text_of(other) == form.text_of(other),
        form.focused > 0 ==> form.after_up().focused == form.focused - 1,
        form.focused == 0 ==> form.after_up().focused == 0,
        form.focused < form.fields().len() - 1 ==> form.after_down().focused == form.focused + 1,
        form.focused == form.fields().len() - 1 ==> form.after_down().focused == form.focused,
{
}

}
