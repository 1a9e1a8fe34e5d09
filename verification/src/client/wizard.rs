//! The setup form of the client.

use crate::client::config::TorClientConfig;
use crate::client::config::TorClientConfigView;
use crate::client::config::MAX_HOPS;
use crate::display::spans_of;
use crate::display::Span;
use crate::form::check_url;
use crate::form::is_url;
use crate::form::show_text_row;
use crate::form::text_row;
use crate::form::FormKey;
use crate::text::dec;
use crate::text::dec_text;
use crate::text::numbered;
use crate::text::opt_text;
use crate::text::parse_number;
use crate::text::parsed_number;
use crate::text::pop_last;
use crate::text::without_last;
use vstd::prelude::*;
use vstd::string::*;

verus! {

/// The width of the labels in the form.
pub const LABEL_WIDTH: usize = 20;

/// A field of the form.
#[derive(Debug, Clone, Copy, PartialEq, Eq, Structural)]
pub enum Field {
    SocksAddr,
    DirectoryUrl,
    PoolSize,
    Hops,
    MaxRebuildAttempts,
}

impl Field {
    /// The label of the field.
    pub open spec fn label_text(self) -> Seq<char> {
        match self {
            Field::SocksAddr => "SOCKS Address"@,
            Field::DirectoryUrl => "Directory URL"@,
            Field::PoolSize => "Pool Size"@,
            Field::Hops => "Hops"@,
            Field::MaxRebuildAttempts => "Max Rebuild"@,
        }
    }

    /// The label of the field.
    pub fn label(self) -> (r: &'static str)
        ensures
            r@ == self.label_text(),
    {
        match self {
            Field::SocksAddr => "SOCKS Address",
            Field::DirectoryUrl => "Directory URL",
            Field::PoolSize => "Pool Size",
            Field::Hops => "Hops",
            Field::MaxRebuildAttempts => "Max Rebuild",
        }
    }
}

/// The fields of the form, from the top down.
pub open spec fn fields() -> Seq<Field> {
    seq![
        Field::SocksAddr,
        Field::DirectoryUrl,
        Field::PoolSize,
        Field::Hops,
        Field::MaxRebuildAttempts,
    ]
}

/// The field in a row of the form.
pub fn field_at(row: usize) -> (r: Option<Field>)
    ensures
        r == (if row < fields().len() {
            Some(fields()[row as int])
        } else {
            None
        }),
{
    match row {
        0 => Some(Field::SocksAddr),
        1 => Some(Field::DirectoryUrl),
        2 => Some(Field::PoolSize),
        3 => Some(Field::Hops),
        4 => Some(Field::MaxRebuildAttempts),
        _ => None,
    }
}

/// What the form holds.
#[derive(Debug)]
pub struct WizardState {
    /// The row that the keys go to.
    pub focused: usize,
    pub socks_addr: String,
    pub directory_url: String,
    pub pool_size: String,
    pub hops: String,
    pub max_rebuild_attempts: String,
    /// What was wrong when the form was last sent.
    pub error: Option<String>,
}

/// What the form holds.
#[verifier::ext_equal]
pub struct WizardView {
    pub focused: usize,
    pub socks_addr: Seq<char>,
    pub directory_url: Seq<char>,
    pub pool_size: Seq<char>,
    pub hops: Seq<char>,
    pub max_rebuild_attempts: Seq<char>,
    pub error: Option<Seq<char>>,
}

impl View for WizardState {
    type V = WizardView;

    open spec fn view(&self) -> WizardView {
        WizardView {
            focused: self.focused,
            socks_addr: self.socks_addr@,
            directory_url: self.directory_url@,
            pool_size: self.pool_size@,
            hops: self.hops@,
            max_rebuild_attempts: self.max_rebuild_attempts@,
            error: opt_text(self.error),
        }
    }
}

/// The form for these settings.
pub open spec fn form_for(config: TorClientConfigView) -> WizardView {
    WizardView {
        focused: 0,
        socks_addr: config.socks_addr,
        directory_url: config.directory_url,
        pool_size: dec_text(config.pool_size as nat),
        hops: dec_text(config.hops as nat),
        max_rebuild_attempts: dec_text(config.max_rebuild_attempts as nat),
        error: None,
    }
}

impl WizardView {
    /// The field that the keys go to.
    pub open spec fn field(self) -> Option<Field> {
        if self.focused < fields().len() {
            Some(fields()[self.focused as int])
        } else {
            None
        }
    }

    /// The text in a field.
    pub open spec fn text_of(self, field: Field) -> Seq<char> {
        match field {
            Field::SocksAddr => self.socks_addr,
            Field::DirectoryUrl => self.directory_url,
            Field::PoolSize => self.pool_size,
            Field::Hops => self.hops,
            Field::MaxRebuildAttempts => self.max_rebuild_attempts,
        }
    }

    /// The form with this text in a field.
    pub open spec fn with_text(self, field: Field, text: Seq<char>) -> WizardView {
        match field {
            Field::SocksAddr => WizardView { socks_addr: text, ..self },
            Field::DirectoryUrl => WizardView { directory_url: text, ..self },
            Field::PoolSize => WizardView { pool_size: text, ..self },
            Field::Hops => WizardView { hops: text, ..self },
            Field::MaxRebuildAttempts => WizardView { max_rebuild_attempts: text, ..self },
        }
    }

    /// The form after a step up.
    pub open spec fn after_up(self) -> WizardView {
        if self.focused > 0 {
            WizardView { focused: (self.focused - 1) as usize, ..self }
        } else {
            self
        }
    }

    /// The form after a step down.
    pub open spec fn after_down(self) -> WizardView {
        if self.focused < fields().len() - 1 {
            WizardView { focused: (self.focused + 1) as usize, ..self }
        } else {
            self
        }
    }

    /// The form after a character was typed.
    pub open spec fn after_char(self, c: char) -> WizardView {
        match self.field() {
            Some(field) => WizardView {
                error: None,
                ..self.with_text(field, self.text_of(field).push(c))
            },
            None => self,
        }
    }

    /// The form after the last character was deleted.
    pub open spec fn after_delete(self) -> WizardView {
        match self.field() {
            Some(field) => WizardView {
                error: None,
                ..self.with_text(field, without_last(self.text_of(field)))
            },
            None => self,
        }
    }

    /// What is wrong with the number of hops.
    pub open spec fn hops_complaint(self) -> Option<Seq<char>> {
        match parsed_number(self.hops, usize::MAX as nat) {
            None => Some("Hops must be 3\u{2013}10"@),
            Some(h) => if h < 3 {
                Some("Hops must be >= 3, got "@ + dec_text(h))
            } else if h > MAX_HOPS {
                Some("Hops must be <= 10, got "@ + dec_text(h))
            } else {
                None
            },
        }
    }

    /// What is wrong with the form. Whether the proxy's address is one is said by `address_ok`.
    pub open spec fn complaint(self, address_ok: bool) -> Option<Seq<char>> {
        let pool_size = parsed_number(self.pool_size, usize::MAX as nat);
        let attempts = parsed_number(self.max_rebuild_attempts, usize::MAX as nat);
        if !address_ok {
            Some("SOCKS address must be a valid host:port (e.g. 127.0.0.1:1080)"@)
        } else if !is_url(self.directory_url) {
            Some("Directory URL must start with http:// or https://"@)
        } else if pool_size is None || pool_size->0 == 0 {
            Some("Pool size must be > 0"@)
        } else if self.hops_complaint() is Some {
            self.hops_complaint()
        } else if attempts is None || attempts->0 == 0 {
            Some("Max rebuild attempts must be >= 1"@)
        } else {
            None
        }
    }

    /// The settings that a form with nothing wrong stands for.
    pub open spec fn settings(self) -> TorClientConfigView {
        TorClientConfigView {
            socks_addr: self.socks_addr,
            directory_url: self.directory_url,
            pool_size: parsed_number(self.pool_size, usize::MAX as nat)->0 as usize,
            hops: parsed_number(self.hops, usize::MAX as nat)->0 as usize,
            tui: true,
            max_rebuild_attempts: parsed_number(
                self.max_rebuild_attempts,
                usize::MAX as nat,
            )->0 as usize,
        }
    }

    /// What comes of a key.
    pub open spec fn after_key(self, key: FormKey, address_ok: bool) -> (WizardView, FormStepView) {
        match key {
            FormKey::Escape => (self, FormStepView::Quit),
            FormKey::Up => (self.after_up(), FormStepView::Stay),
            FormKey::Down => (self.after_down(), FormStepView::Stay),
            FormKey::Backspace => (self.after_delete(), FormStepView::Stay),
            FormKey::Char(c) => (self.after_char(c), FormStepView::Stay),
            FormKey::Enter => (
                WizardView { error: self.complaint(address_ok), ..self },
                if self.complaint(address_ok) is None {
                    FormStepView::Launch(self.settings())
                } else {
                    FormStepView::Stay
                },
            ),
            _ => (self, FormStepView::Stay),
        }
    }
}

/// What comes of a key: the form stays, the program ends, or the client starts.
#[derive(Debug)]
pub enum FormStep {
    Stay,
    Quit,
    Launch(TorClientConfig),
}

/// What comes of a key.
pub enum FormStepView {
    Stay,
    Quit,
    Launch(TorClientConfigView),
}

impl View for FormStep {
    type V = FormStepView;

    open spec fn view(&self) -> FormStepView {
        match *self {
            FormStep::Stay => FormStepView::Stay,
            FormStep::Quit => FormStepView::Quit,
            FormStep::Launch(config) => FormStepView::Launch(config@),
        }
    }
}

impl WizardState {
    /// The form for these settings.
    pub fn new(defaults: &TorClientConfig) -> (r: Self)
        ensures
            r@ == form_for(defaults@),
    {
        Self {
            focused: 0,
            socks_addr: defaults.socks_addr.clone(),
            directory_url: defaults.directory_url.clone(),
            pool_size: dec(defaults.pool_size as u64),
            hops: dec(defaults.hops as u64),
            max_rebuild_attempts: dec(defaults.max_rebuild_attempts as u64),
            error: None,
        }
    }

    /// The field that the keys go to.
    pub fn current(&self) -> (r: Option<Field>)
        ensures
            r == self@.field(),
    {
        field_at(self.focused)
    }

    /// Moves to the field above.
    pub fn up(&mut self)
        ensures
            final(self)@ == old(self)@.after_up(),
    {
        if self.focused > 0 {
            self.focused -= 1;
        }
    }

    /// Moves to the field below.
    pub fn down(&mut self)
        ensures
            final(self)@ == old(self)@.after_down(),
    {
        if self.focused < 4 {
            self.focused += 1;
        }
    }

    /// The text in a field.
    pub fn text_in(&self, field: Field) -> (r: String)
        ensures
            r@ == self@.text_of(field),
    {
        match field {
            Field::SocksAddr => self.socks_addr.clone(),
            Field::DirectoryUrl => self.directory_url.clone(),
            Field::PoolSize => self.pool_size.clone(),
            Field::Hops => self.hops.clone(),
            Field::MaxRebuildAttempts => self.max_rebuild_attempts.clone(),
        }
    }

    fn set_text(&mut self, field: Field, text: String)
        ensures
            final(self)@ == old(self)@.with_text(field, text@),
    {
        match field {
            Field::SocksAddr => self.socks_addr = text,
            Field::DirectoryUrl => self.directory_url = text,
            Field::PoolSize => self.pool_size = text,
            Field::Hops => self.hops = text,
            Field::MaxRebuildAttempts => self.max_rebuild_attempts = text,
        }
    }

    /// Types a character into the field.
    pub fn push_char(&mut self, c: char)
        ensures
            final(self)@ == old(self)@.after_char(c),
    {
        if let Some(field) = self.current() {
            let mut text = self.text_in(field);
            text.push(c);
            self.set_text(field, text);
            self.error = None;
        }
    }

    /// Deletes the last character of the field.
    pub fn pop_char(&mut self)
        ensures
            final(self)@ == old(self)@.after_delete(),
    {
        if let Some(field) = self.current() {
            let text = pop_last(self.text_in(field).as_str());
            self.set_text(field, text);
            self.error = None;
        }
    }

    /// The settings that the form stands for, or the first thing wrong with it, which the form
    /// then shows. Whether the proxy's address is one is said by `address_ok`.
    pub fn validate(&mut self, address_ok: bool) -> (r: Option<TorClientConfig>)
        ensures
            final(self)@ == (WizardView {
                error: old(self)@.complaint(address_ok),
                ..old(self)@
            }),
            match r {
                Some(config) => old(self)@.complaint(address_ok) is None && config@
                    == old(self)@.settings(),
                None => old(self)@.complaint(address_ok) is Some,
            },
    {
        if !address_ok {
            self.error = Some(
                "SOCKS address must be a valid host:port (e.g. 127.0.0.1:1080)".to_owned(),
            );
            return None;
        }
        if !check_url(self.directory_url.as_str()) {
            self.error = Some("Directory URL must start with http:// or https://".to_owned());
            return None;
        }
        let pool_size: u64 = match parse_number(self.pool_size.as_str(), usize::MAX as u64) {
            Some(p) => p,
            None => 0,
        };
        if pool_size == 0 {
            self.error = Some("Pool size must be > 0".to_owned());
            return None;
        }
        let hops: u64 = match parse_number(self.hops.as_str(), usize::MAX as u64) {
            Some(h) => h,
            None => {
                self.error = Some("Hops must be 3\u{2013}10".to_owned());
                return None;
            },
        };
        if hops < 3 {
            self.error = Some(numbered("Hops must be >= 3, got ", hops));
            return None;
        }
        if hops > MAX_HOPS as u64 {
            self.error = Some(numbered("Hops must be <= 10, got ", hops));
            return None;
        }
        let max_rebuild_attempts: u64 = match parse_number(
            self.max_rebuild_attempts.as_str(),
            usize::MAX as u64,
        ) {
            Some(a) => a,
            None => 0,
        };
        if max_rebuild_attempts == 0 {
            self.error = Some("Max rebuild attempts must be >= 1".to_owned());
            return None;
        }
        self.error = None;
        Some(
            TorClientConfig {
                socks_addr: self.socks_addr.clone(),
                directory_url: self.directory_url.clone(),
                pool_size: pool_size as usize,
                hops: hops as usize,
                tui: true,
                max_rebuild_attempts: max_rebuild_attempts as usize,
            },
        )
    }

    /// What comes of a key. Whether the proxy's address is one is said by `address_ok`.
    pub fn press(&mut self, key: FormKey, address_ok: bool) -> (r: FormStep)
        ensures
            (final(self)@, r@) == old(self)@.after_key(key, address_ok),
    {
        match key {
            FormKey::Escape => {
                return FormStep::Quit;
            },
            FormKey::Up => self.up(),
            FormKey::Down => self.down(),
            FormKey::Backspace => self.pop_char(),
            FormKey::Char(c) => self.push_char(c),
            FormKey::Enter => {
                if let Some(config) = self.validate(address_ok) {
                    return FormStep::Launch(config);
                }
            },
            _ => {},
        }
        FormStep::Stay
    }

    /// The rows of the form.
    pub fn show_rows(&self) -> (r: Vec<Vec<Span>>)
        ensures
            r@.len() == fields().len(),
            forall|i: int|
                0 <= i < r@.len() ==> spans_of((#[trigger] r@[i])@) == text_row(
                    fields()[i].label_text(),
                    LABEL_WIDTH as nat,
                    self@.text_of(fields()[i]),
                    i == self.focused,
                ),
    {
        let mut r: Vec<Vec<Span>> = Vec::new();
        while r.len() < 5
            invariant
                r@.len() <= 5,
                forall|i: int|
                    0 <= i < r@.len() ==> spans_of((#[trigger] r@[i])@) == text_row(
                        fields()[i].label_text(),
                        LABEL_WIDTH as nat,
                        self@.text_of(fields()[i]),
                        i == self.focused,
                    ),
            decreases 5 - r@.len(),
        {
            if let Some(field) = field_at(r.len()) {
                let text = self.text_in(field);
                r.push(show_text_row(field.label(), LABEL_WIDTH, text, r.len() == self.focused));
            }
        }
        r
    }
}

/// Settings that were valid come out of the form as they went in, but that the dashboard is
/// shown.
pub proof fn valid_settings_pass_the_form(config: TorClientConfigView)
    requires
        is_url(config.directory_url),
        config.pool_size > 0,
        3 <= config.hops <= MAX_HOPS,
        config.max_rebuild_attempts > 0,
    ensures
        form_for(config).complaint(true) is None,
        form_for(config).settings() == (TorClientConfigView { tui: true, ..config }),
{
    crate::text::numerals_read_back(config.pool_size as nat, usize::MAX as nat);
    crate::text::numerals_read_back(config.hops as nat, usize::MAX as nat);
    crate::text::numerals_read_back(config.max_rebuild_attempts as nat, usize::MAX as nat);
}

/// Deleting takes back what was typed.
pub proof fn deleting_undoes_typing(form: WizardView, c: char)
    requires
        form.error is None,
    ensures
        form.after_char(c).after_delete() == form,
{
    if let Some(field) = form.field() {
        assert(without_last(form.text_of(field).push(c)) =~= form.text_of(field));
    }
}

/// A client starts only from a form that is in order, and with the settings that stand in it: the
/// proxy's address is one, the URL is one of HTTP, and the numbers are read from the fields, with
/// three to ten hops and at least one circuit and one attempt. No other key than Enter starts it.
pub proof fn launched_clients_have_valid_settings(
    form: WizardView,
    key: FormKey,
    address_ok: bool,
)
    ensures
        ({
            let (after, step) = form.after_key(key, address_ok);
            &&& step is Launch ==> {
                let config = step->Launch_0;
                &&& key == FormKey::Enter
                &&& address_ok
                &&& config.socks_addr == form.socks_addr
                &&& config.directory_url == form.directory_url
                &&& "http://"@.is_prefix_of(config.directory_url) || "https://"@.is_prefix_of(
                    config.directory_url,
                )
                &&& parsed_number(form.pool_size, usize::MAX as nat) == Some(
                    config.pool_size as nat,
                )
                &&& parsed_number(form.hops, usize::MAX as nat) == Some(config.hops as nat)
                &&& parsed_number(form.max_rebuild_attempts, usize::MAX as nat) == Some(
                    config.max_rebuild_attempts as nat,
                )
                &&& config.pool_size > 0
                &&& 3 <= config.hops <= 10
                &&& config.max_rebuild_attempts >= 1
                &&& config.tui
            }
            &&& key == FormKey::Enter && !(step is Launch) ==> after.error is Some && step is Stay
            &&& step is Quit <==> key == FormKey::Escape
            &&& form.focused < 5 ==> after.focused < 5
        }),
{
}

/// A character that is typed goes behind the text of the field in focus, and to no other field;
/// deleting takes the last character of that field. Steps up and down go from row to row, stay in the
/// form, and change no text.
pub proof fn keys_go_to_the_field_in_focus(form: WizardView, c: char, other: Field)
    requires
        form.focused < 5,
    ensures
        form.field() is Some,
        ({
            let field = form.field()->0;
            let typed = form.after_char(c);
            let deleted = form.after_delete();
            &&& typed.text_of(field) == form.text_of(field).push(c)
            &&& other != field ==> typed.text_of(other) == form.text_of(other)
                && deleted.text_of(other) == form.text_of(other)
            &&& form.text_of(field).len() > 0 ==> deleted.text_of(field) == form.text_of(
                field,
            ).drop_last()
            &&& typed.focused == form.focused && deleted.focused == form.focused
        }),
        form.after_up().text_of(other) == form.text_of(other),
        form.after_down().text_of(other) == form.text_of(other),
        form.focused > 0 ==> form.after_up().focused == form.focused - 1,
        form.focused == 0 ==> form.after_up().focused == 0,
        form.focused < 4 ==> form.after_down().focused == form.focused + 1,
        form.focused == 4 ==> form.after_down().focused == 4,
{
}

}
