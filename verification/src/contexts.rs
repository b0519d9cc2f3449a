//! The Contexts screen: the saved Prism Centrals, an add form, a login field. It owns its
//! input, like the other modals; the app owns everything a key needs to reach - the config
//! file, the session, the mode.

use vstd::prelude::*;
use crate::ascii::{chars_of, concat, string_of};
use crate::catalog::opt_view;
use crate::key::Key;
use crate::text::{trimmed, Edit, Input};

verus! {

/// Prism Central's port: what the add form starts on.
pub const DEFAULT_PORT: u16 = 9440;

/// The name of the row that stands for the environment's target rather than a saved context.
pub open spec fn env_row() -> Seq<char> {
    "(env)"@
}

/// The name of the row that stands for the environment's target rather than a saved context.
pub fn env_row_name() -> (r: &'static str)
    ensures
        r@ == env_row(),
{
    proof {
        reveal_strlit("(env)");
    }
    "(env)"
}

/// One saved context, as the screen lists it.
#[derive(Debug, Clone, PartialEq, Eq)]
pub struct ContextRow {
    pub name: String,
    pub host: String,
    pub port: u16,
    pub username: String,
    pub cluster: Option<String>,
    pub readonly: bool,
    pub insecure: bool,
    /// Whether this is the session's own context.
    pub current: bool,
    /// Whether a password is stored for it.
    pub has_password: bool,
}

/// A context to add, as the form collected it.
#[derive(Clone, PartialEq, Eq)]
pub struct NewContext {
    pub name: String,
    pub host: String,
    pub port: u16,
    pub username: String,
    pub password: String,
    pub cluster: Option<String>,
    pub ca_bundle: Option<String>,
    pub insecure: bool,
    pub readonly: bool,
}

/// A connect the screen asks for.
#[allow(inconsistent_fields)]
#[derive(Clone, PartialEq, Eq)]
pub enum ConnectRequest {
    /// Save this context, then connect to it.
    Add(NewContext),
    /// Connect to a saved context with the password just typed.
    Login { name: String, password: String },
    /// Connect to a saved context with the password stored for it.
    Stored { name: String },
    /// Connect to the environment's target.
    Env { password: Option<String> },
}

/// What a key on the screen, the form, or the login field asks the app to do.
#[derive(Clone, PartialEq, Eq)]
pub enum Action {
    /// The screen dealt with the key itself; a redraw is the whole effect.
    Handled,
    /// The add form or the login field opened.
    Opened,
    /// The add form or the login field closed; back to the rows.
    Closed,
    /// Re-read the rows.
    Reload,
    /// Remove this context, then re-read the rows.
    Remove(String),
    /// Start this connect. The second field is the host, for the message under the rows.
    Connect(ConnectRequest, String),
    /// `space`: read this context beside the session, or stop reading it.
    Toggle(String),
    /// `esc` on the rows: back to the table, when there is one.
    Back,
    Quit,
    /// `:` - only the app knows whether there is a session to run a command against.
    Palette,
}

#[derive(Debug, Clone, Copy, PartialEq, Eq, Structural)]
pub enum Field {
    Name,
    Host,
    Port,
    Username,
    Password,
    Cluster,
    Insecure,
    Readonly,
}

/// The form's fields, in the order the cursor walks them.
pub open spec fn fields_spec() -> Seq<Field> {
    seq![
        Field::Name,
        Field::Host,
        Field::Port,
        Field::Username,
        Field::Password,
        Field::Cluster,
        Field::Insecure,
        Field::Readonly,
    ]
}

/// The form's fields, in the order the cursor walks them.
pub const FIELDS: [Field; 8] = [
    Field::Name,
    Field::Host,
    Field::Port,
    Field::Username,
    Field::Password,
    Field::Cluster,
    Field::Insecure,
    Field::Readonly,
];

/// What each field is called on the form.
pub open spec fn field_label(f: Field) -> Seq<char> {
    match f {
        Field::Name => "name"@,
        Field::Host => "host"@,
        Field::Port => "port"@,
        Field::Username => "username"@,
        Field::Password => "password"@,
        Field::Cluster => "cluster"@,
        Field::Insecure => "insecure"@,
        Field::Readonly => "read-only"@,
    }
}

impl Field {
    pub fn label(self) -> (r: &'static str)
        ensures
            r@ == field_label(self),
    {
        proof {
            reveal_strlit("name");
            reveal_strlit("host");
            reveal_strlit("port");
            reveal_strlit("username");
            reveal_strlit("password");
            reveal_strlit("cluster");
            reveal_strlit("insecure");
            reveal_strlit("read-only");
        }
        match self {
            Field::Name => "name",
            Field::Host => "host",
            Field::Port => "port",
            Field::Username => "username",
            Field::Password => "password",
            Field::Cluster => "cluster",
            Field::Insecure => "insecure",
            Field::Readonly => "read-only",
        }
    }
}

/// A password as its length: one `*` per character.
pub open spec fn mask_spec(password: Seq<char>) -> Seq<char> {
    Seq::new(password.len(), |i: int| '*')
}

/// A password as its length: what the form and the login field show of it.
pub fn mask(password: &str) -> (r: String)
    ensures
        r@ == mask_spec(password@),
{
    let n = chars_of(password).len();
    let mut v: Vec<char> = Vec::new();
    while v.len() < n
        invariant
            v@.len() <= n,
            forall|i: int| 0 <= i < v@.len() ==> v@[i] == '*',
        decreases n - v@.len(),
    {
        v.push('*');
    }
    proof {
        assert(v@ =~= mask_spec(password@));
    }
    string_of(v.as_slice())
}

/// A checkbox as the form draws it.
pub open spec fn checkbox_spec(on: bool) -> Seq<char> {
    if on { "[x]"@ } else { "[ ]"@ }
}

/// A checkbox as the form draws it.
pub fn checkbox(on: bool) -> (r: String)
    ensures
        r@ == checkbox_spec(on),
{
    proof {
        reveal_strlit("[x]");
        reveal_strlit("[ ]");
    }
    (if on { "[x]" } else { "[ ]" }).to_string()
}

/// The add form.
pub struct Form {
    pub name: Input,
    pub host: Input,
    pub port: Input,
    pub username: Input,
    pub password: Input,
    pub cluster: Input,
    pub insecure: bool,
    pub readonly: bool,
    pub field: usize,
    pub error: Option<String>,
}

/// The field the cursor is on: `field` indexes [`FIELDS`], and anything past them is the name.
pub open spec fn current_field(field: usize) -> Field {
    if field < 8 { fields_spec()[field as int] } else { Field::Name }
}

/// Whether a field is typed into rather than toggled.
pub open spec fn is_text(f: Field) -> bool {
    !(f == Field::Insecure || f == Field::Readonly)
}

/// A name may hold ASCII letters, digits, `-`, `_` and `.`, and nothing else.
pub open spec fn name_char(c: char) -> bool {
    crate::ascii::ascii_alphanumeric(c) || c == '-' || c == '_' || c == '.'
}

/// The value of a run of decimal digits.
pub open spec fn digits_value(s: Seq<char>) -> nat
    decreases s.len(),
{
    if s.len() == 0 {
        0
    } else {
        digits_value(s.drop_last()) * 10 + ((s.last() as u32) - 48) as nat
    }
}

/// What follows an optional leading `+`.
pub open spec fn digits_part(s: Seq<char>) -> Seq<char> {
    if s.len() > 0 && s[0] == '+' { s.drop_first() } else { s }
}

/// Every character is a decimal digit.
pub open spec fn all_digits(d: Seq<char>) -> bool {
    forall|i: int| 0 <= i < d.len() ==> '0' <= #[trigger] d[i] && d[i] <= '9'
}

/// What `str::parse::<u16>` accepts: an optional `+`, then one or more decimal digits whose
/// value fits in sixteen bits.
pub open spec fn parse_u16_spec(s: Seq<char>) -> Option<u16> {
    let d = digits_part(s);
    if d.len() > 0 && all_digits(d) && digits_value(d) <= u16::MAX {
        Some(digits_value(d) as u16)
    } else {
        None
    }
}

/// `str::parse::<u16>`, on the characters of `s`.
pub fn parse_u16(s: &[char]) -> (r: Option<u16>)
    ensures
        r == parse_u16_spec(s@),
{
    let start: usize = if s.len() > 0 && s[0] == '+' { 1 } else { 0 };
    let ghost d = digits_part(s@);
    proof {
        assert(d =~= s@.subrange(start as int, s@.len() as int));
    }
    if start >= s.len() {
        return None;
    }
    let mut value: u32 = 0;
    let mut i = start;
    while i < s.len()
        invariant
            start <= i <= s@.len(),
            d == digits_part(s@),
            d == s@.subrange(start as int, s@.len() as int),
            forall|j: int| start <= j < i ==> '0' <= #[trigger] s@[j] && s@[j] <= '9',
            value == digits_value(s@.subrange(start as int, i as int)),
            value <= u16::MAX,
        decreases s.len() - i,
    {
        let c = s[i];
        if !('0' <= c && c <= '9') {
            proof {
                assert(d[i - start] == c);
                assert(!all_digits(d));
            }
            return None;
        }
        let digit = (c as u32) - 48;
        proof {
            assert(s@.subrange(start as int, i + 1).drop_last() =~= s@.subrange(start as int, i as int));
        }
        value = value * 10 + digit;
        if value > 65535 {
            proof {
                assert(s@.subrange(start as int, i + 1) =~= d.subrange(0, i + 1 - start));
                if all_digits(d) {
                    lemma_digits_value_grows(d, (i + 1 - start) as int);
                }
            }
            return None;
        }
        i = i + 1;
    }
    proof {
        assert(s@.subrange(start as int, s@.len() as int) == d);
        assert forall|j: int| 0 <= j < d.len() implies '0' <= #[trigger] d[j] && d[j] <= '9' by {
            assert(d[j] == s@[start + j]);
        }
    }
    Some(value as u16)
}

/// Digits only add value: a prefix's value bounds the whole run's.
proof fn lemma_digits_value_grows(s: Seq<char>, k: int)
    requires
        0 <= k <= s.len(),
        forall|i: int| 0 <= i < s.len() ==> '0' <= #[trigger] s[i] && s[i] <= '9',
    ensures
        digits_value(s.subrange(0, k)) <= digits_value(s),
    decreases s.len() - k,
{
    if k < s.len() {
        lemma_digits_value_grows(s, k + 1);
        assert(s.subrange(0, k + 1).drop_last() =~= s.subrange(0, k));
    } else {
        assert(s.subrange(0, k) =~= s);
    }
}

/// A name that is no context's.
pub open spec fn name_ok(name: Seq<char>) -> bool {
    name.len() > 0 && forall|i: int| 0 <= i < name.len() ==> name_char(#[trigger] name[i])
}

/// Whether `r` is the answer `v`: the context, carrying no CA bundle, or the same complaint.
pub open spec fn submitted_as(r: Result<NewContext, String>, v: Result<NewContextV, Seq<char>>) -> bool {
    match (r, v) {
        (Ok(n), Ok(w)) => n@ == w && n.ca_bundle is None,
        (Err(e), Err(w)) => e@ == w,
        _ => false,
    }
}

/// The first thing wrong with a form, or the context it describes, when the names that already
/// exist are `taken`.
pub open spec fn submit_spec(f: Form, taken: Seq<Seq<char>>) -> Result<NewContextV, Seq<char>> {
    submit_answered(f, taken.contains(trimmed(f.name.text())))
}

/// The first thing wrong with a form, or the context it describes, given whether its name is
/// already taken.
pub open spec fn submit_answered(f: Form, is_taken: bool) -> Result<NewContextV, Seq<char>> {
    let name = trimmed(f.name.text());
    if !name_ok(name) {
        Err("name: letters, digits, - _ . only"@)
    } else if is_taken {
        Err("context "@ + name + " already exists"@)
    } else if trimmed(f.host.text()).len() == 0 {
        Err("host is required"@)
    } else if parse_u16_spec(trimmed(f.port.text())) is None {
        Err("port must be a number"@)
    } else if trimmed(f.username.text()).len() == 0 {
        Err("username is required"@)
    } else if f.password.text().len() == 0 {
        Err("password is required"@)
    } else {
        let cluster = trimmed(f.cluster.text());
        Ok(NewContextV {
            name,
            host: trimmed(f.host.text()),
            port: parse_u16_spec(trimmed(f.port.text()))->0,
            username: trimmed(f.username.text()),
            password: f.password.text(),
            cluster: if cluster.len() == 0 { None } else { Some(cluster) },
            insecure: f.insecure,
            readonly: f.readonly,
        })
    }
}

/// A form that validates becomes the context it describes: the trimmed name, host and
/// username, the password as typed, and the two boxes as ticked - a read-only box ticked is a
/// read-only context.
pub proof fn a_new_context_is_the_form_it_came_from(f: Form, is_taken: bool)
    ensures
        submit_answered(f, is_taken) matches Ok(v) ==> {
            &&& v.readonly == f.readonly
            &&& v.insecure == f.insecure
            &&& v.name == trimmed(f.name.text())
            &&& v.host == trimmed(f.host.text())
            &&& v.username == trimmed(f.username.text())
            &&& v.password == f.password.text()
            &&& !is_taken
        },
{
}

/// A context to add, as values. It carries no CA bundle: a bundle is a path to a file, which
/// is a file picker's job rather than a text field's.
pub struct NewContextV {
    pub name: Seq<char>,
    pub host: Seq<char>,
    pub port: u16,
    pub username: Seq<char>,
    pub password: Seq<char>,
    pub cluster: Option<Seq<char>>,
    pub insecure: bool,
    pub readonly: bool,
}

impl View for NewContext {
    type V = NewContextV;

    open spec fn view(&self) -> NewContextV {
        NewContextV {
            name: self.name@,
            host: self.host@,
            port: self.port,
            username: self.username@,
            password: self.password@,
            cluster: opt_view(self.cluster),
            insecure: self.insecure,
            readonly: self.readonly,
        }
    }
}

/// Whether `names` holds `name`.
pub(crate) fn holds(names: &[String], name: &str) -> (r: bool)
    ensures
        r == crate::catalog::strings_view(names@).contains(name@),
{
    let ghost nv = crate::catalog::strings_view(names@);
    let mut i: usize = 0;
    while i < names.len()
        invariant
            i <= names@.len(),
            nv == crate::catalog::strings_view(names@),
            forall|j: int| 0 <= j < i ==> nv[j] != name@,
        decreases names.len() - i,
    {
        if crate::ascii::str_eq(names[i].as_str(), name) {
            proof {
                assert(nv[i as int] == name@);
            }
            return true;
        }
        i = i + 1;
    }
    false
}

/// Whether every character is allowed in a name.
fn all_name_chars(s: &[char]) -> (r: bool)
    ensures
        r == forall|i: int| 0 <= i < s@.len() ==> name_char(#[trigger] s@[i]),
{
    let mut i: usize = 0;
    while i < s.len()
        invariant
            i <= s@.len(),
            forall|j: int| 0 <= j < i ==> name_char(#[trigger] s@[j]),
        decreases s.len() - i,
    {
        let c = s[i];
        if !(('a' <= c && c <= 'z') || ('A' <= c && c <= 'Z') || ('0' <= c && c <= '9') || c == '-' || c == '_' || c == '.') {
            return false;
        }
        i = i + 1;
    }
    true
}

impl Form {
    /// A blank form, on the default port.
    pub fn new() -> (r: Form)
        ensures
            r.name.text().len() == 0,
            r.host.text().len() == 0,
            r.port.text() == crate::ascii::decimal(DEFAULT_PORT as nat),
            r.username.text().len() == 0,
            r.password.text().len() == 0,
            r.cluster.text().len() == 0,
            !r.insecure,
            !r.readonly,
            r.field == 0,
            r.error is None,
    {
        let port = crate::ascii::decimal_string(DEFAULT_PORT as u64);
        Form {
            name: Input::new(),
            host: Input::new(),
            port: Input::from_str(port.as_str()),
            username: Input::new(),
            password: Input::new(),
            cluster: Input::new(),
            insecure: false,
            readonly: false,
            field: 0,
            error: None,
        }
    }

    /// The field the cursor is on. `field` only ever moves modulo the field count, so the
    /// fallback is unreachable; it keeps a drawing bug from becoming a panic.
    pub fn current(&self) -> (r: Field)
        ensures
            r == current_field(self.field),
    {
        if self.field < 8 {
            proof {
                assert(FIELDS@ == fields_spec());
            }
            FIELDS[self.field]
        } else {
            Field::Name
        }
    }

    /// The text field the cursor is on; `None` on a checkbox.
    pub fn text(&self) -> (r: Option<&Input>)
        ensures
            is_text(current_field(self.field)) == r is Some,
            r matches Some(i) ==> *i == *self.text_of(current_field(self.field)),
    {
        match self.current() {
            Field::Name => Some(&self.name),
            Field::Host => Some(&self.host),
            Field::Port => Some(&self.port),
            Field::Username => Some(&self.username),
            Field::Password => Some(&self.password),
            Field::Cluster => Some(&self.cluster),
            Field::Insecure | Field::Readonly => None,
        }
    }

    /// The input behind a text field (the name's for a checkbox, which has none).
    pub open spec fn text_of(&self, f: Field) -> &Input {
        match f {
            Field::Host => &self.host,
            Field::Port => &self.port,
            Field::Username => &self.username,
            Field::Password => &self.password,
            Field::Cluster => &self.cluster,
            _ => &self.name,
        }
    }

    /// Where the block goes on the field the keys go to; `None` for a checkbox. The password's
    /// is in characters, because it is drawn as one `*` per character.
    pub fn cursor(&self) -> (r: Option<usize>)
        ensures
            !is_text(current_field(self.field)) ==> r is None,
            current_field(self.field) == Field::Password ==> r == Some(self.password.pos() as usize),
            is_text(current_field(self.field)) && current_field(self.field) != Field::Password ==> {
                let i = self.text_of(current_field(self.field));
                r == Some(crate::text::min_nat(crate::text::utf8_bytes(i.text().subrange(0, i.pos() as int)), usize::MAX as nat) as usize)
            },
    {
        let f = self.current();
        match self.text() {
            None => None,
            Some(input) => {
                if f == Field::Password {
                    Some(input.char_cursor())
                } else {
                    Some(input.cursor())
                }
            },
        }
    }

    /// `space` on a checkbox flips it; on a text field it does nothing here.
    pub fn toggle(&mut self)
        ensures
            current_field(old(self).field) == Field::Insecure ==> final(self).insecure == !old(self).insecure && final(self).readonly == old(self).readonly,
            current_field(old(self).field) == Field::Readonly ==> final(self).readonly == !old(self).readonly && final(self).insecure == old(self).insecure,
            is_text(current_field(old(self).field)) ==> final(self).insecure == old(self).insecure && final(self).readonly == old(self).readonly,
            final(self).field == old(self).field,
            final(self).error == old(self).error,
    {
        match self.current() {
            Field::Insecure => self.insecure = !self.insecure,
            Field::Readonly => self.readonly = !self.readonly,
            _ => {},
        }
    }

    /// The value each field shows; the password only as its length.
    pub fn value(&self, field: Field) -> (r: String)
        ensures
            r@ == match field {
                Field::Password => mask_spec(self.password.text()),
                Field::Insecure => checkbox_spec(self.insecure),
                Field::Readonly => checkbox_spec(self.readonly),
                _ => self.text_of(field).text(),
            },
    {
        match field {
            Field::Name => self.name.as_str(),
            Field::Host => self.host.as_str(),
            Field::Port => self.port.as_str(),
            Field::Username => self.username.as_str(),
            Field::Password => mask(self.password.as_str().as_str()),
            Field::Cluster => self.cluster.as_str(),
            Field::Insecure => checkbox(self.insecure),
            Field::Readonly => checkbox(self.readonly),
        }
    }

    /// The context, or the first thing wrong with the form. `taken` says whether a name
    /// already exists; it is asked about the trimmed name once, and only when that name is one a
    /// context can have.
    pub fn submit(&self, taken: impl Fn(&str) -> bool) -> (r: Result<NewContext, String>)
        requires
            forall|s: &str| #[trigger] call_requires(taken, (s,)),
        ensures
            r matches Ok(n) ==> n.readonly == self.readonly && n.insecure == self.insecure,
            !name_ok(trimmed(self.name.text())) ==> submitted_as(r, submit_answered(*self, false)),
            name_ok(trimmed(self.name.text())) ==> exists|s: &str, b: bool|
                #[trigger] call_ensures(taken, (s,), b) && s@ == trimmed(self.name.text())
                    && submitted_as(r, submit_answered(*self, b)),
    {
        let name = self.name.trim();
        let nc = chars_of(name.as_str());
        if nc.len() == 0 || !all_name_chars(nc.as_slice()) {
            return self.submit_checked(false);
        }
        let is_taken = taken(name.as_str());
        self.submit_checked(is_taken)
    }

    /// The context, or the first thing wrong with the form, given whether its name is taken.
    fn submit_checked(&self, is_taken: bool) -> (r: Result<NewContext, String>)
        ensures
            submitted_as(r, submit_answered(*self, is_taken)),
            r matches Ok(n) ==> n.readonly == self.readonly && n.insecure == self.insecure,
    {
        let name = self.name.trim();
        let nc = chars_of(name.as_str());
        if nc.len() == 0 || !all_name_chars(nc.as_slice()) {
            proof {
                reveal_strlit("name: letters, digits, - _ . only");
            }
            return Err("name: letters, digits, - _ . only".to_string());
        }
        if is_taken {
            proof {
                reveal_strlit("context ");
                reveal_strlit(" already exists");
            }
            return Err(concat(concat("context ", name.as_str()).as_str(), " already exists"));
        }
        let host = self.host.trim();
        if chars_of(host.as_str()).len() == 0 {
            proof {
                reveal_strlit("host is required");
            }
            return Err("host is required".to_string());
        }
        let port_text = self.port.trim();
        let port = match parse_u16(chars_of(port_text.as_str()).as_slice()) {
            Some(p) => p,
            None => {
                proof {
                    reveal_strlit("port must be a number");
                }
                return Err("port must be a number".to_string());
            },
        };
        let username = self.username.trim();
        if chars_of(username.as_str()).len() == 0 {
            proof {
                reveal_strlit("username is required");
            }
            return Err("username is required".to_string());
        }
        if self.password.is_empty() {
            proof {
                reveal_strlit("password is required");
            }
            return Err("password is required".to_string());
        }
        let cluster = self.cluster.trim();
        let cluster = if chars_of(cluster.as_str()).len() == 0 { None } else { Some(cluster) };
        Ok(NewContext {
            name,
            host,
            port,
            username,
            password: self.password.as_str(),
            cluster,
            ca_bundle: None,
            insecure: self.insecure,
            readonly: self.readonly,
        })
    }
}

/// The password prompt for one row.
pub struct Login {
    pub name: String,
    pub password: Input,
    pub error: Option<String>,
}

/// The connect for a row: with the password the user typed, or with whatever is stored for it.
/// The environment row is no saved context, so both of its answers come from the environment.
pub open spec fn request_spec(name: Seq<char>, password: Option<Seq<char>>, r: ConnectRequest) -> bool {
    if name == env_row() {
        r matches ConnectRequest::Env { password: p } && opt_view(p) == password
    } else {
        match password {
            Some(pw) => r matches ConnectRequest::Login { name: n, password: p } && n@ == name && p@ == pw,
            None => r matches ConnectRequest::Stored { name: n } && n@ == name,
        }
    }
}

/// The connect for a row: with the password the user typed, or with whatever is stored for it.
pub fn request(name: &str, password: Option<String>) -> (r: ConnectRequest)
    ensures
        request_spec(name@, opt_view(password), r),
{
    if crate::ascii::str_eq(name, env_row_name()) {
        return ConnectRequest::Env { password };
    }
    match password {
        Some(password) => ConnectRequest::Login { name: name.to_string(), password },
        None => ConnectRequest::Stored { name: name.to_string() },
    }
}

impl Login {
    /// The connect this field asks for: this row, with the password typed.
    pub fn request(&self) -> (r: ConnectRequest)
        ensures
            request_spec(self.name@, Some(self.password.text()), r),
    {
        request(self.name.as_str(), Some(self.password.as_str()))
    }

    /// Where the block goes in the masked value: in characters, because the mask is one `*`
    /// per character rather than the password itself.
    pub fn cursor(&self) -> (r: usize)
        ensures
            r == self.password.pos(),
    {
        self.password.char_cursor()
    }
}

/// The box over the rows while there is one.
pub enum Prompt {
    Add(Form),
    Login(Login),
}

impl Prompt {
    /// What the connect it asked for came back with, shown under its fields.
    pub fn set_error(&mut self, error: String)
        ensures
            match *final(self) {
                Prompt::Add(f) => (*old(self) is Add) && f.error == Some(error),
                Prompt::Login(l) => (*old(self) is Login) && l.error == Some(error),
            },
    {
        match self {
            Prompt::Add(form) => form.error = Some(error),
            Prompt::Login(login) => login.error = Some(error),
        }
    }
}

/// What `PgUp` and `PgDn` move by.
pub const PAGE: usize = 20;

} // verus!

verus! {

/// The Contexts screen: the rows, the cursor, the box over them, and what the last action had
/// to say.
pub struct Screen {
    pub rows: Vec<ContextRow>,
    pub selected: usize,
    pub prompt: Option<Prompt>,
    /// What the last action had to say; a reload clears it.
    pub message: Option<String>,
    /// Why there are no rows, when reading them is what failed.
    pub list_error: Option<String>,
    /// A connect is running: every key is swallowed until it comes back.
    pub pending: bool,
    /// The row `d` asked about: the next key decides.
    pub confirm_remove: Option<String>,
    /// The contexts joined beside the session, drawn with `+`.
    pub joined: Vec<String>,
}

impl Default for Screen {
    fn default() -> (r: Screen)
        ensures
            r.rows@.len() == 0,
            r.selected == 0,
            r.prompt is None,
            r.message is None,
            r.list_error is None,
            !r.pending,
            r.confirm_remove is None,
            r.joined@.len() == 0,
    {
        Screen::new(Vec::new())
    }
}

/// The index of the last row, or 0 when there are none.
pub open spec fn last_row(n: int) -> int {
    if n > 0 { n - 1 } else { 0 }
}

/// The login box for `name`, freshly opened with `error` under it.
pub open spec fn fresh_login(p: Option<Prompt>, name: Seq<char>, error: Option<Seq<char>>) -> bool {
    p matches Some(Prompt::Login(l)) && l.name@ == name && l.password.text().len() == 0 && opt_view(l.error) == error
}

/// A blank add form.
pub open spec fn fresh_form(p: Option<Prompt>) -> bool {
    p matches Some(Prompt::Add(f)) && {
        &&& f.name.text().len() == 0
        &&& f.host.text().len() == 0
        &&& f.port.text() == crate::ascii::decimal(DEFAULT_PORT as nat)
        &&& f.username.text().len() == 0
        &&& f.password.text().len() == 0
        &&& f.cluster.text().len() == 0
        &&& !f.insecure
        &&& !f.readonly
        &&& f.field == 0
        &&& f.error is None
    }
}

/// Everything but the fields named stayed as it was.
pub open spec fn same_rows(old: Screen, new: Screen) -> bool {
    &&& new.rows == old.rows
    &&& new.list_error == old.list_error
    &&& new.pending == old.pending
    &&& new.joined == old.joined
}

/// What a key on the rows does.
pub open spec fn screen_key_spec(old: Screen, key: Key, new: Screen, r: Action) -> bool {
    let n = old.rows@.len() as int;
    let sel = old.selected as int;
    let row = if 0 <= sel < n { Some(old.rows@[sel]) } else { None };
    let keep = new.selected == old.selected && new.prompt == old.prompt && new.message == old.message
        && new.confirm_remove == old.confirm_remove;
    &&& same_rows(old, new)
    &&& if old.pending {
        r == Action::Handled && keep
    } else if old.confirm_remove is Some {
        &&& new.confirm_remove is None
        &&& new.selected == old.selected && new.prompt == old.prompt && new.message == old.message
        &&& if key == Key::Char('y') {
            r matches Action::Remove(name) && name@ == old.confirm_remove->0@
        } else {
            r == Action::Handled
        }
    } else {
        match crate::activity::list_move(key, sel, last_row(n)) {
            Some(x) => {
                &&& r == Action::Handled
                &&& new.selected == x
                &&& new.prompt == old.prompt && new.message == old.message && new.confirm_remove == old.confirm_remove
            },
            None => match key {
                Key::Ctrl(c) => if c == 'r' { r == Action::Reload && keep } else { r == Action::Handled && keep },
                Key::Char(c) => if c == 'a' {
                    &&& r == Action::Opened
                    &&& fresh_form(new.prompt)
                    &&& new.selected == old.selected && new.message == old.message && new.confirm_remove == old.confirm_remove
                } else if c == 'l' {
                    match row {
                        Some(rw) => {
                            &&& r == Action::Opened
                            &&& fresh_login(new.prompt, rw.name@, None)
                            &&& new.selected == old.selected && new.message == old.message && new.confirm_remove == old.confirm_remove
                        },
                        None => r == Action::Handled && keep,
                    }
                } else if c == 'd' {
                    match row {
                        Some(rw) => if rw.name@ == env_row() {
                            &&& r == Action::Handled
                            &&& opt_view(new.message) == Some("the environment target is not saved"@)
                            &&& new.selected == old.selected && new.prompt == old.prompt && new.confirm_remove == old.confirm_remove
                        } else {
                            &&& r == Action::Handled
                            &&& opt_view(new.confirm_remove) == Some(rw.name@)
                            &&& new.selected == old.selected && new.prompt == old.prompt && new.message == old.message
                        },
                        None => r == Action::Handled && keep,
                    }
                } else if c == ' ' {
                    match row {
                        Some(rw) => if rw.name@ == env_row() {
                            &&& r == Action::Handled
                            &&& opt_view(new.message) == Some("the environment target cannot be joined"@)
                            &&& new.selected == old.selected && new.prompt == old.prompt && new.confirm_remove == old.confirm_remove
                        } else if rw.current {
                            &&& r == Action::Handled
                            &&& opt_view(new.message) == Some(rw.name@ + " is the session"@)
                            &&& new.selected == old.selected && new.prompt == old.prompt && new.confirm_remove == old.confirm_remove
                        } else {
                            (r matches Action::Toggle(name) && name@ == rw.name@) && keep
                        },
                        None => r == Action::Handled && keep,
                    }
                } else if c == 'q' {
                    r == Action::Quit && keep
                } else if c == ':' {
                    r == Action::Palette && keep
                } else {
                    r == Action::Handled && keep
                },
                Key::Enter => match row {
                    Some(rw) => if rw.has_password {
                        (r matches Action::Connect(req, host) && request_spec(rw.name@, None, req) && host@ == rw.host@) && keep
                    } else {
                        &&& r == Action::Opened
                        &&& fresh_login(new.prompt, rw.name@, None)
                        &&& new.selected == old.selected && new.message == old.message && new.confirm_remove == old.confirm_remove
                    },
                    None => r == Action::Handled && keep,
                },
                Key::Esc => r == Action::Back && keep,
                _ => r == Action::Handled && keep,
            },
        }
    }
}

impl Screen {
    /// A screen over `rows`, with the cursor on the first.
    pub fn new(rows: Vec<ContextRow>) -> (r: Screen)
        ensures
            r.rows == rows,
            r.selected == 0,
            r.prompt is None,
            r.message is None,
            r.list_error is None,
            !r.pending,
            r.confirm_remove is None,
            r.joined@.len() == 0,
    {
        Screen {
            rows,
            selected: 0,
            prompt: None,
            message: None,
            list_error: None,
            pending: false,
            confirm_remove: None,
            joined: Vec::new(),
        }
    }

    /// The row under the cursor.
    pub fn current(&self) -> (r: Option<&ContextRow>)
        ensures
            self.selected < self.rows@.len() ==> r == Some(&self.rows@[self.selected as int]),
            self.selected >= self.rows@.len() ==> r is None,
    {
        if self.selected < self.rows.len() {
            Some(&self.rows[self.selected])
        } else {
            None
        }
    }

    /// Put the cursor on the first row named `name` when there is one; leave it alone when
    /// there is none.
    pub fn select(&mut self, name: &str)
        ensures
            final(self).rows == old(self).rows,
            final(self).prompt == old(self).prompt,
            (exists|i: int| 0 <= i < old(self).rows@.len() && old(self).rows@[i].name@ == name@) ==> {
                &&& final(self).selected < old(self).rows@.len()
                &&& old(self).rows@[final(self).selected as int].name@ == name@
                &&& forall|j: int| 0 <= j < final(self).selected ==> old(self).rows@[j].name@ != name@
            },
            !(exists|i: int| 0 <= i < old(self).rows@.len() && old(self).rows@[i].name@ == name@) ==> final(self).selected == old(self).selected,
    {
        let mut i: usize = 0;
        while i < self.rows.len()
            invariant
                i <= self.rows@.len(),
                self.rows == old(self).rows,
                self.prompt == old(self).prompt,
                self.selected == old(self).selected,
                forall|j: int| 0 <= j < i ==> self.rows@[j].name@ != name@,
            decreases self.rows.len() - i,
        {
            if crate::ascii::str_eq(self.rows[i].name.as_str(), name) {
                self.selected = i;
                return;
            }
            i = i + 1;
        }
    }

    /// The password prompt for `name`, with the reason it was opened when there is one.
    pub fn open_login(&mut self, name: String, error: Option<String>)
        ensures
            fresh_login(final(self).prompt, name@, opt_view(error)),
            same_rows(*old(self), *final(self)),
            final(self).selected == old(self).selected,
            final(self).message == old(self).message,
            final(self).confirm_remove == old(self).confirm_remove,
    {
        self.prompt = Some(Prompt::Login(Login { name, password: Input::new(), error }));
    }

    /// A key on the rows. While a connect runs nothing is accepted, and a removal confirmation
    /// swallows the next key whatever it is: only `y` removes.
    pub fn key(&mut self, key: Key) -> (r: Action)
        ensures
            screen_key_spec(*old(self), key, *final(self), r),
    {
        if self.pending {
            return Action::Handled;
        }
        if let Some(name) = self.confirm_remove.take() {
            return if key == Key::Char('y') { Action::Remove(name) } else { Action::Handled };
        }
        let last = if self.rows.len() > 0 { self.rows.len() - 1 } else { 0 };
        if let Some(x) = crate::activity::list_step(key, self.selected, last) {
            self.selected = x;
            return Action::Handled;
        }
        match key {
            Key::Ctrl('r') => Action::Reload,
            Key::Char('a') => {
                self.prompt = Some(Prompt::Add(Form::new()));
                Action::Opened
            },
            Key::Char('l') => {
                if self.selected < self.rows.len() {
                    let name = self.rows[self.selected].name.clone();
                    self.open_login(name, None);
                    Action::Opened
                } else {
                    Action::Handled
                }
            },
            Key::Char('d') => {
                if self.selected < self.rows.len() {
                    if crate::ascii::str_eq(self.rows[self.selected].name.as_str(), env_row_name()) {
                        proof {
                            reveal_strlit("the environment target is not saved");
                        }
                        self.message = Some("the environment target is not saved".to_string());
                    } else {
                        self.confirm_remove = Some(self.rows[self.selected].name.clone());
                    }
                }
                Action::Handled
            },
            Key::Enter => {
                if self.selected < self.rows.len() {
                    if self.rows[self.selected].has_password {
                        let req = request(self.rows[self.selected].name.as_str(), None);
                        Action::Connect(req, self.rows[self.selected].host.clone())
                    } else {
                        let name = self.rows[self.selected].name.clone();
                        self.open_login(name, None);
                        Action::Opened
                    }
                } else {
                    Action::Handled
                }
            },
            Key::Char(' ') => {
                if self.selected < self.rows.len() {
                    if crate::ascii::str_eq(self.rows[self.selected].name.as_str(), env_row_name()) {
                        proof {
                            reveal_strlit("the environment target cannot be joined");
                        }
                        self.message = Some("the environment target cannot be joined".to_string());
                        Action::Handled
                    } else if self.rows[self.selected].current {
                        proof {
                            reveal_strlit(" is the session");
                        }
                        self.message = Some(concat(self.rows[self.selected].name.as_str(), " is the session"));
                        Action::Handled
                    } else {
                        Action::Toggle(self.rows[self.selected].name.clone())
                    }
                } else {
                    Action::Handled
                }
            },
            Key::Esc => Action::Back,
            Key::Char('q') => Action::Quit,
            Key::Char(':') => Action::Palette,
            _ => Action::Handled,
        }
    }
}

} // verus!

verus! {

/// The names of the rows.
pub open spec fn row_names(rows: Seq<ContextRow>) -> Seq<Seq<char>> {
    rows.map_values(|r: ContextRow| r.name@)
}

/// The host of the first row named `name`, or nothing.
pub open spec fn host_of_spec(rows: Seq<ContextRow>, name: Seq<char>) -> Seq<char> {
    if exists|i: int| 0 <= i < rows.len() && rows[i].name@ == name {
        rows[choose|i: int| 0 <= i < rows.len() && rows[i].name@ == name && forall|j: int| 0 <= j < i ==> rows[j].name@ != name].host@
    } else {
        Seq::empty()
    }
}

/// The host of a row by name, for the `connecting to HOST…` message.
fn host_of(rows: &[ContextRow], name: &str) -> (r: String)
    ensures
        r@ == host_of_spec(rows@, name@),
{
    let mut i: usize = 0;
    while i < rows.len()
        invariant
            i <= rows@.len(),
            forall|j: int| 0 <= j < i ==> rows@[j].name@ != name@,
        decreases rows.len() - i,
    {
        if crate::ascii::str_eq(rows[i].name.as_str(), name) {
            proof {
                let k = choose|k: int| 0 <= k < rows@.len() && rows@[k].name@ == name@ && forall|j: int| 0 <= j < k ==> rows@[j].name@ != name@;
                if k < i {
                } else if k > i {
                    assert(rows@[i as int].name@ == name@);
                }
            }
            return rows[i].host.clone();
        }
        i = i + 1;
    }
    String::new()
}

/// The names of the rows.
fn names_of(rows: &[ContextRow]) -> (r: Vec<String>)
    ensures
        crate::catalog::strings_view(r@) == row_names(rows@),
{
    let mut out: Vec<String> = Vec::new();
    let mut i: usize = 0;
    while i < rows.len()
        invariant
            i <= rows@.len(),
            crate::catalog::strings_view(out@) == row_names(rows@.subrange(0, i as int)),
        decreases rows.len() - i,
    {
        let ghost before = out@;
        out.push(rows[i].name.clone());
        proof {
            assert(crate::catalog::strings_view(out@) =~= crate::catalog::strings_view(before).push(rows@[i as int].name@));
            assert(row_names(rows@.subrange(0, i + 1)) =~= row_names(rows@.subrange(0, i as int)).push(rows@[i as int].name@));
        }
        i = i + 1;
    }
    proof {
        assert(rows@.subrange(0, rows@.len() as int) =~= rows@);
    }
    out
}

/// Every text field of the form but the one named is as it was, and so are the checkboxes.
pub open spec fn others_kept(old: Form, new: Form, f: Field) -> bool {
    &&& (f != Field::Name ==> new.name == old.name)
    &&& (f != Field::Host ==> new.host == old.host)
    &&& (f != Field::Port ==> new.port == old.port)
    &&& (f != Field::Username ==> new.username == old.username)
    &&& (f != Field::Password ==> new.password == old.password)
    &&& (f != Field::Cluster ==> new.cluster == old.cluster)
    &&& new.insecure == old.insecure
    &&& new.readonly == old.readonly
    &&& new.field == old.field
}

impl Form {
    /// An editing key on the text field the cursor is on; `None` on a checkbox, or for a key
    /// that is no editing key.
    pub fn edit(&mut self, key: Key) -> (r: Option<Edit>)
        ensures
            final(self).error == old(self).error,
            is_text(current_field(old(self).field)) ==> {
                let f = current_field(old(self).field);
                let (e, t, p) = crate::text::key_edit(*old(self).text_of(f), key);
                &&& r == e
                &&& final(self).text_of(f).text() == t
                &&& final(self).text_of(f).pos() == p
                &&& others_kept(*old(self), *final(self), f)
            },
            !is_text(current_field(old(self).field)) ==> r is None && *final(self) == *old(self),
    {
        match self.current() {
            Field::Name => self.name.key(key),
            Field::Host => self.host.key(key),
            Field::Port => self.port.key(key),
            Field::Username => self.username.key(key),
            Field::Password => self.password.key(key),
            Field::Cluster => self.cluster.key(key),
            Field::Insecure | Field::Readonly => None,
        }
    }
}

/// What a key on the add form does.
pub open spec fn add_key_spec(old: Form, rows: Seq<ContextRow>, key: Key, new: Option<Form>, r: Action) -> bool {
    let f = current_field(old.field);
    match key {
        Key::Esc => r == Action::Closed && new is None,
        Key::Tab | Key::Down => r == Action::Handled && new == Some(Form { field: ((old.field + 1) % 8) as usize, ..old }),
        Key::BackTab | Key::Up => r == Action::Handled && new == Some(Form { field: ((old.field + 7) % 8) as usize, ..old }),
        Key::Enter => match submit_spec(old, row_names(rows)) {
            Err(e) => r == Action::Handled && (new matches Some(n) && opt_view(n.error) == Some(e) && n == Form { error: n.error, ..old }),
            Ok(v) => new == Some(old) && (r matches Action::Connect(ConnectRequest::Add(c), host) && c@ == v && c.ca_bundle is None && host@ == v.host),
        },
        _ => if key == Key::Char(' ') && !is_text(f) {
            &&& r == Action::Handled
            &&& new matches Some(n)
            &&& n.error is None
            &&& n.field == old.field
            &&& (f == Field::Insecure ==> n.insecure == !old.insecure && n.readonly == old.readonly)
            &&& (f == Field::Readonly ==> n.readonly == !old.readonly && n.insecure == old.insecure)
        } else if is_text(f) {
            let (e, t, p) = crate::text::key_edit(*old.text_of(f), key);
            &&& r == Action::Handled
            &&& new matches Some(n)
            &&& n.text_of(f).text() == t
            &&& n.text_of(f).pos() == p
            &&& others_kept(old, n, f)
            &&& n.error == if e == Some(Edit::Changed) { None } else { old.error }
        } else {
            r == Action::Handled && new == Some(old)
        },
    }
}

/// What a key on the login field does.
pub open spec fn login_key_spec(old: Login, rows: Seq<ContextRow>, key: Key, new: Option<Login>, r: Action) -> bool {
    match key {
        Key::Esc => r == Action::Closed && new is None,
        Key::Enter => if old.password.text().len() == 0 {
            r == Action::Handled && (new matches Some(n) && n.name == old.name && n.password == old.password && opt_view(n.error) == Some("password is required"@))
        } else {
            new == Some(old) && (r matches Action::Connect(req, host) && request_spec(old.name@, Some(old.password.text()), req) && host@ == host_of_spec(rows, old.name@))
        },
        _ => {
            let (e, t, p) = crate::text::key_edit(old.password, key);
            &&& r == Action::Handled
            &&& new matches Some(n)
            &&& n.name == old.name
            &&& n.password.text() == t
            &&& n.password.pos() == p
            &&& n.error == if e == Some(Edit::Changed) { None } else { old.error }
        },
    }
}

impl Screen {
    /// A key on the open box. The box stays open while its connect runs - a rejected password
    /// must not cost the user eight typed fields - so it ignores keys the way the rows do.
    pub fn form_key(&mut self, key: Key) -> (r: Action)
        ensures
            same_rows(*old(self), *final(self)),
            final(self).selected == old(self).selected,
            final(self).message == old(self).message,
            final(self).confirm_remove == old(self).confirm_remove,
            old(self).pending ==> r == Action::Handled && final(self).prompt == old(self).prompt,
            !old(self).pending ==> match old(self).prompt {
                None => r == Action::Closed && final(self).prompt is None,
                Some(Prompt::Add(f)) => exists|n: Option<Form>| add_key_spec(f, old(self).rows@, key, n, r) && final(self).prompt == match n {
                    Some(n) => Some(Prompt::Add(n)),
                    None => None,
                },
                Some(Prompt::Login(l)) => exists|n: Option<Login>| login_key_spec(l, old(self).rows@, key, n, r) && final(self).prompt == match n {
                    Some(n) => Some(Prompt::Login(n)),
                    None => None,
                },
            },
    {
        if self.pending {
            return Action::Handled;
        }
        match self.prompt.take() {
            None => Action::Closed,
            Some(Prompt::Add(form)) => {
                let (r, next) = add_key(form, self.rows.as_slice(), key);
                self.prompt = match next {
                    Some(n) => Some(Prompt::Add(n)),
                    None => None,
                };
                r
            },
            Some(Prompt::Login(login)) => {
                let (r, next) = login_key(login, self.rows.as_slice(), key);
                self.prompt = match next {
                    Some(n) => Some(Prompt::Login(n)),
                    None => None,
                };
                r
            },
        }
    }
}

/// A key on the add form: the form that stays open, or `None` when it closed.
fn add_key(form: Form, rows: &[ContextRow], key: Key) -> (r: (Action, Option<Form>))
    ensures
        add_key_spec(form, rows@, key, r.1, r.0),
{
    let mut form = form;
    match key {
        Key::Esc => (Action::Closed, None),
        Key::Tab | Key::Down => {
            form.field = (form.field % 8 + 1) % 8;
            (Action::Handled, Some(form))
        },
        Key::BackTab | Key::Up => {
            form.field = (form.field % 8 + 7) % 8;
            (Action::Handled, Some(form))
        },
        Key::Enter => {
            let names = names_of(rows);
            let names_ref = &names;
            let taken = |n: &str| -> (b: bool)
                ensures
                    b == crate::catalog::strings_view(names_ref@).contains(n@),
                { holds(names_ref.as_slice(), n) };
            match form.submit(taken) {
                Err(e) => {
                    form.error = Some(e);
                    (Action::Handled, Some(form))
                },
                Ok(new) => {
                    let host = new.host.clone();
                    (Action::Connect(ConnectRequest::Add(new), host), Some(form))
                },
            }
        },
        _ => {
            let f = form.current();
            if key == Key::Char(' ') && (f == Field::Insecure || f == Field::Readonly) {
                form.toggle();
                form.error = None;
            } else if !(f == Field::Insecure || f == Field::Readonly) {
                if form.edit(key) == Some(Edit::Changed) {
                    form.error = None;
                }
            }
            (Action::Handled, Some(form))
        },
    }
}

/// A key on the login field: the field that stays open, or `None` when it closed.
fn login_key(login: Login, rows: &[ContextRow], key: Key) -> (r: (Action, Option<Login>))
    ensures
        login_key_spec(login, rows@, key, r.1, r.0),
{
    let mut login = login;
    match key {
        Key::Esc => (Action::Closed, None),
        Key::Enter => {
            if login.password.is_empty() {
                login.error = Some("password is required".to_string());
                (Action::Handled, Some(login))
            } else {
                let req = login.request();
                let host = host_of(rows, login.name.as_str());
                (Action::Connect(req, host), Some(login))
            }
        },
        _ => {
            if login.password.key(key) == Some(Edit::Changed) {
                login.error = None;
            }
            (Action::Handled, Some(login))
        },
    }
}

} // verus!
