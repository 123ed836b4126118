//! The options of the `trace` attribute, and their validation.
use vstd::prelude::*;
use crate::text::is_word;

verus! {

/// Which ambient context supplies the parent of a span.
#[derive(Clone, Copy, Debug, PartialEq, Eq, Structural)]
pub enum Scope {
    Local,
    Threads,
}

/// A literal value given to an option.
#[derive(Clone, Debug, PartialEq, Eq)]
pub enum Lit {
    Str(String),
    Bool(bool),
    /// Any other literal, as written.
    Other(String),
}

/// One `key = value` argument of the attribute.
#[derive(Clone, Debug, PartialEq, Eq)]
pub struct NameValue {
    /// The key's path, as written (`name`, `enter_on_poll`).
    pub key: String,
    pub value: Lit,
}

/// Why the arguments of the attribute were rejected.
#[derive(Clone, Debug, PartialEq, Eq)]
pub enum ParseError {
    /// More than three arguments.
    TooManyArguments,
    /// The option was given twice.
    DuplicateOption(String),
    /// The option's value has the wrong kind of literal.
    WrongValueType(String),
    /// The key names no option.
    UnknownOption(String),
}

impl ParseError {
    pub open spec fn spec_message(&self) -> Seq<char> {
        match self {
            ParseError::TooManyArguments => "Too many arguments. This attribute takes up to two (2) arguments"@,
            ParseError::DuplicateOption(k) => "`"@ + k@ + "` provided twice"@,
            ParseError::WrongValueType(k) => if k@ == enter_on_poll_key() {
                "`enter_on_poll` value should be an boolean"@
            } else {
                "`"@ + k@ + "` value should be a string"@
            },
            ParseError::UnknownOption(_) => "unknown option"@,
        }
    }

    /// The text of the compiler error.
    pub fn message(&self) -> (r: String)
        ensures
            r@ == self.spec_message(),
    {
        match self {
            ParseError::TooManyArguments => String::from_str(
                "Too many arguments. This attribute takes up to two (2) arguments",
            ),
            ParseError::DuplicateOption(k) => String::from_str("`").concat(k.as_str()).concat(
                "` provided twice",
            ),
            ParseError::WrongValueType(k) => {
                if is_word(k, "enter_on_poll") {
                    String::from_str("`enter_on_poll` value should be an boolean")
                } else {
                    String::from_str("`").concat(k.as_str()).concat("` value should be a string")
                }
            },
            ParseError::UnknownOption(_) => String::from_str("unknown option"),
        }
    }
}

/// The options of one application of the attribute, with their defaults.
#[derive(Clone, Debug, PartialEq, Eq)]
pub struct Trace {
    /// The options are the defaults, untouched by any arguments.
    pub default: bool,
    /// The span's name; the sentinel `__default` stands for the function's
    /// own name.
    pub name: String,
    /// The options came from validated arguments.
    pub validated: bool,
    pub enter_on_poll: bool,
    pub scope: Option<Scope>,
    pub parent: Option<String>,
    pub recorder: Option<String>,
    pub recurse: Option<bool>,
    pub root: Option<bool>,
    pub variables: Option<Vec<String>>,
    pub async_trait: Option<bool>,
    pub async_fn: Option<bool>,
}

/// The name that stands for the function's own name.
pub open spec fn default_name() -> Seq<char> {
    "__default"@
}

pub open spec fn name_key() -> Seq<char> {
    "name"@
}

pub open spec fn enter_on_poll_key() -> Seq<char> {
    "enter_on_poll"@
}

/// The most arguments that the attribute takes.
pub const MAX_ARGUMENTS: usize = 3;

/// The value of the last of the first `n` arguments whose key is `key`.
pub open spec fn lookup(args: Seq<NameValue>, key: Seq<char>, n: int) -> Option<Lit>
    decreases n,
{
    if n <= 0 {
        None
    } else if args[n - 1].key@ == key {
        Some(args[n - 1].value)
    } else {
        lookup(args, key, n - 1)
    }
}

/// Argument `j` is rejected, given the arguments before it.
pub open spec fn rejected(args: Seq<NameValue>, j: int) -> bool {
    let kv = args[j];
    if kv.key@ == enter_on_poll_key() {
        lookup(args, enter_on_poll_key(), j) is Some || !(kv.value is Bool)
    } else if kv.key@ == name_key() {
        lookup(args, name_key(), j) is Some || !(kv.value is Str)
    } else {
        true
    }
}

/// The first rejected argument among the first `n`.
pub open spec fn first_rejected(args: Seq<NameValue>, n: int) -> Option<int>
    decreases n,
{
    if n <= 0 {
        None
    } else {
        match first_rejected(args, n - 1) {
            Some(j) => Some(j),
            None => if rejected(args, n - 1) {
                Some(n - 1)
            } else {
                None
            },
        }
    }
}

/// `e` is the error that argument `j` is rejected with.
pub open spec fn rejection(args: Seq<NameValue>, j: int, e: ParseError) -> bool {
    let kv = args[j];
    if kv.key@ == enter_on_poll_key() || kv.key@ == name_key() {
        if lookup(args, kv.key@, j) is Some {
            e matches ParseError::DuplicateOption(k) && k@ == kv.key@
        } else {
            e matches ParseError::WrongValueType(k) && k@ == kv.key@
        }
    } else {
        e matches ParseError::UnknownOption(k) && k@ == kv.key@
    }
}

proof fn lemma_first_rejected_stays(args: Seq<NameValue>, m: int, n: int)
    requires
        first_rejected(args, m) is Some,
        m <= n,
    ensures
        first_rejected(args, n) == first_rejected(args, m),
    decreases n - m,
{
    if m < n {
        lemma_first_rejected_stays(args, m, n - 1);
    }
}

impl Trace {
    /// The options that no argument sets hold their defaults.
    pub open spec fn has_default_extras(&self) -> bool {
        &&& self.scope == Some(Scope::Local)
        &&& self.parent matches Some(p) && p@ == default_name()
        &&& self.recorder matches Some(r) && r@ == "span"@
        &&& self.recurse == Some(false)
        &&& self.root == Some(false)
        &&& self.variables matches Some(v) && v@.len() == 0
        &&& self.async_trait == Some(false)
        &&& self.async_fn == Some(false)
    }

    /// The options that `parse` makes of valid arguments.
    pub open spec fn parsed_from(&self, args: Seq<NameValue>) -> bool {
        &&& !self.default
        &&& self.validated
        &&& self.name@ == match lookup(args, name_key(), args.len() as int) {
            Some(Lit::Str(s)) => s@,
            _ => default_name(),
        }
        &&& self.enter_on_poll == match lookup(args, enter_on_poll_key(), args.len() as int) {
            Some(Lit::Bool(b)) => b,
            _ => false,
        }
        &&& self.has_default_extras()
    }

    /// Validates the arguments of the attribute: at most three, each key
    /// `name` (a string) or `enter_on_poll` (a boolean), each at most once.
    /// The first argument that breaks a rule gives the error.
    pub fn parse(args: &Vec<NameValue>) -> (r: Result<Trace, ParseError>)
        ensures
            args@.len() > MAX_ARGUMENTS ==> r matches Err(ParseError::TooManyArguments),
            args@.len() <= MAX_ARGUMENTS ==> match first_rejected(args@, args@.len() as int) {
                Some(j) => r matches Err(e) && rejection(args@, j, e),
                None => r matches Ok(t) && t.parsed_from(args@),
            },
    {
        if args.len() > MAX_ARGUMENTS {
            return Err(ParseError::TooManyArguments);
        }
        let mut enter_on_poll: Option<bool> = None;
        let mut name: Option<String> = None;
        let mut i: usize = 0;
        while i < args.len()
            invariant
                i <= args@.len(),
                args@.len() <= MAX_ARGUMENTS,
                first_rejected(args@, i as int) is None,
                match lookup(args@, enter_on_poll_key(), i as int) {
                    Some(Lit::Bool(b)) => enter_on_poll == Some(b),
                    Some(_) => false,
                    None => enter_on_poll is None,
                },
                match lookup(args@, name_key(), i as int) {
                    Some(Lit::Str(s)) => name matches Some(n) && n@ == s@,
                    Some(_) => false,
                    None => name is None,
                },
            decreases args@.len() - i,
        {
            let kv = &args[i];
            proof {
                reveal_strlit("name");
                reveal_strlit("enter_on_poll");
            }
            if is_word(&kv.key, "enter_on_poll") {
                if enter_on_poll.is_some() {
                    proof {
                    lemma_first_rejected_stays(args@, i + 1, args@.len() as int);
                }
                return Err(ParseError::DuplicateOption(kv.key.clone()));
                }
                match &kv.value {
                    Lit::Bool(v) => {
                        enter_on_poll = Some(*v);
                        assert(kv.key@.len() != name_key().len());
                    },
                    _ => {
                        proof {
                    lemma_first_rejected_stays(args@, i + 1, args@.len() as int);
                }
                return Err(ParseError::WrongValueType(kv.key.clone()));
                    },
                }
            } else if is_word(&kv.key, "name") {
                if name.is_some() {
                    proof {
                    lemma_first_rejected_stays(args@, i + 1, args@.len() as int);
                }
                return Err(ParseError::DuplicateOption(kv.key.clone()));
                }
                match &kv.value {
                    Lit::Str(v) => {
                        name = Some(v.clone());
                    },
                    _ => {
                        proof {
                    lemma_first_rejected_stays(args@, i + 1, args@.len() as int);
                }
                return Err(ParseError::WrongValueType(kv.key.clone()));
                    },
                }
            } else {
                proof {
                    lemma_first_rejected_stays(args@, i + 1, args@.len() as int);
                }
                return Err(ParseError::UnknownOption(kv.key.clone()));
            }
            i = i + 1;
        }
        let mut t = Trace::default();
        t.default = false;
        t.validated = true;
        if let Some(b) = enter_on_poll {
            t.enter_on_poll = b;
        }
        if let Some(n) = name {
            t.name = n;
        }
        Ok(t)
    }
}

/// The index of the first argument that `Trace::parse` rejects, if any, so
/// that the error can point at it.
pub fn first_rejected_argument(args: &Vec<NameValue>) -> (r: Option<usize>)
    ensures
        match r {
            Some(j) => first_rejected(args@, args@.len() as int) == Some(j as int),
            None => first_rejected(args@, args@.len() as int) is None,
        },
{
    let mut seen_enter_on_poll = false;
    let mut seen_name = false;
    let mut i: usize = 0;
    while i < args.len()
        invariant
            i <= args@.len(),
            first_rejected(args@, i as int) is None,
            seen_enter_on_poll == lookup(args@, enter_on_poll_key(), i as int) is Some,
            seen_name == lookup(args@, name_key(), i as int) is Some,
        decreases args@.len() - i,
    {
        let kv = &args[i];
        proof {
            reveal_strlit("name");
            reveal_strlit("enter_on_poll");
        }
        let bad = if is_word(&kv.key, "enter_on_poll") {
            assert(kv.key@.len() != name_key().len());
            let ok = !seen_enter_on_poll && matches!(kv.value, Lit::Bool(_));
            seen_enter_on_poll = true;
            !ok
        } else if is_word(&kv.key, "name") {
            let ok = !seen_name && matches!(kv.value, Lit::Str(_));
            seen_name = true;
            !ok
        } else {
            true
        };
        if bad {
            proof {
                lemma_first_rejected_stays(args@, i + 1, args@.len() as int);
            }
            return Some(i);
        }
        i = i + 1;
    }
    None
}

impl Default for Trace {
    /// The options where no argument is given: the span is named after the
    /// function, entered once, in the local scope, recorded as `span`.
    fn default() -> (r: Self)
        ensures
            r.default,
            !r.validated,
            r.name@ == default_name(),
            !r.enter_on_poll,
            r.has_default_extras(),
    {
        Trace {
            default: true,
            name: String::from_str("__default"),
            validated: false,
            enter_on_poll: false,
            scope: Some(Scope::Local),
            parent: Some(String::from_str("__default")),
            recorder: Some(String::from_str("span")),
            recurse: Some(false),
            root: Some(false),
            variables: Some(Vec::new()),
            async_trait: Some(false),
            async_fn: Some(false),
        }
    }
}

} // verus!
