//! Starting a sign-in: which method an `/auth` argument names and what is
//! left of it for the method's values, and the picker of advertised methods.
use vstd::prelude::*;
use crate::picker::{Picker, PickerItem, PickerKind};
use crate::pickers::{sel_for, sel_on};
use crate::text::{chars_of, char_is_white, is_white, lemma_word_len, string_from_range, str_eq, trim, trim_string, word_len};

verus! {

/// A sign-in method the agent advertises, as the picker shows it.
pub struct AuthChoice {
    pub id: String,
    pub name: Option<String>,
    pub kind: String,
}

/// What `/auth <arg>` leads to before any method is looked at closely.
#[derive(Debug, PartialEq, Eq)]
pub enum AuthStart {
    /// The demo has no agent to sign in to.
    Demo,
    /// A sign-in is already waiting for the agent.
    Pending,
    /// The agent advertised no method.
    NoMethods,
    /// No argument and several methods: let the user pick.
    Pick,
    /// Sign in with this method, handing it the rest of the argument.
    Method { method_id: String, rest: String },
}

/// The first whitespace-free run of `arg` and the rest after the one
/// whitespace character that ends it, trimmed (`splitn(2, char::is_whitespace)`).
pub open spec fn split_first_word(arg: Seq<char>) -> (Seq<char>, Seq<char>) {
    let n = word_len(arg);
    if n < arg.len() {
        (arg.take(n as int), trim(arg.skip(n as int + 1)))
    } else {
        (arg, Seq::empty())
    }
}

pub open spec fn ids_of(methods: Seq<String>) -> Seq<Seq<char>> {
    methods.map_values(|m: String| m@)
}

/// The method and values `/auth <arg>` asks for: a first word naming an
/// advertised method takes it and leaves the rest; otherwise the method in
/// effect (else the first advertised) takes the whole argument.
pub open spec fn auth_method_for(methods: Seq<String>, current: Option<Seq<char>>, arg: Seq<char>) -> (Seq<char>, Seq<char>) {
    let a = trim(arg);
    let (first, rest) = split_first_word(a);
    if ids_of(methods).contains(first) {
        (first, rest)
    } else {
        match current {
            Some(c) => (c, a),
            None => (methods[0]@, a),
        }
    }
}

/// Splits `arg` at its first whitespace character.
fn split_word(arg: &str) -> (r: (String, String))
    ensures
        r.0@ == split_first_word(arg@).0,
        r.1@ == split_first_word(arg@).1,
{
    let v = chars_of(arg);
    let mut j: usize = 0;
    while j < v.len() && !char_is_white(v[j])
        invariant
            j <= v.len(),
            forall|k: int| 0 <= k < j ==> !is_white(#[trigger] v@[k]),
        decreases v.len() - j,
    {
        j = j + 1;
    }
    proof {
        lemma_word_len(v@, j as int);
    }
    if j < v.len() {
        let first = string_from_range(&v, 0, j);
        let tail = string_from_range(&v, j + 1, v.len());
        let rest = trim_string(tail.as_str());
        assert(v@.subrange(0, j as int) =~= arg@.take(j as int));
        assert(v@.subrange(j + 1, v.len() as int) =~= arg@.skip(j + 1));
        (first, rest)
    } else {
        let first = string_from_range(&v, 0, j);
        assert(v@.subrange(0, j as int) =~= arg@);
        (first, String::new())
    }
}

/// Whether some method has id `id`.
fn has_method(methods: &Vec<String>, id: &str) -> (r: bool)
    ensures
        r == ids_of(methods@).contains(id@),
{
    let mut i: usize = 0;
    while i < methods.len()
        invariant
            i <= methods.len(),
            forall|k: int| 0 <= k < i ==> methods@[k]@ != id@,
        decreases methods.len() - i,
    {
        if str_eq(methods[i].as_str(), id) {
            assert(ids_of(methods@)[i as int] == id@);
            return true;
        }
        i = i + 1;
    }
    proof {
        if ids_of(methods@).contains(id@) {
            let k = choose|k: int| 0 <= k < ids_of(methods@).len() && ids_of(methods@)[k] == id@;
            assert(methods@[k]@ == id@);
        }
    }
    false
}

/// What `/auth <arg>` does first: the demo and a sign-in in flight refuse,
/// no advertised method is reported, a bare `/auth` with several methods
/// opens the picker, and otherwise the method and values are chosen.
pub fn auth_start(demo: bool, signing_in: bool, methods: &Vec<String>, current: Option<&str>, arg: &str) -> (r: AuthStart)
    ensures
        demo ==> r == AuthStart::Demo,
        !demo && signing_in ==> r == AuthStart::Pending,
        !demo && !signing_in && methods.len() == 0 ==> r == AuthStart::NoMethods,
        !demo && !signing_in && methods.len() > 0 ==> {
            let cur = match current {
                Some(c) => Some(c@),
                None => None,
            };
            if trim(arg@).len() == 0 && methods.len() > 1 {
                r == AuthStart::Pick
            } else {
                r matches AuthStart::Method { method_id, rest }
                    && (method_id@, rest@) == auth_method_for(methods@, cur, arg@)
            }
        },
{
    if demo {
        return AuthStart::Demo;
    }
    if signing_in {
        return AuthStart::Pending;
    }
    if methods.len() == 0 {
        return AuthStart::NoMethods;
    }
    let a = trim_string(arg);
    if crate::text::char_len(a.as_str()) == 0 && methods.len() > 1 {
        return AuthStart::Pick;
    }
    let (first, rest) = split_word(a.as_str());
    if has_method(methods, first.as_str()) {
        return AuthStart::Method { method_id: first, rest };
    }
    let method_id = match current {
        Some(c) => c.to_owned(),
        None => methods[0].clone(),
    };
    AuthStart::Method { method_id, rest: a }
}

/// The label of a method row: its name, else its id.
pub open spec fn choice_label(m: AuthChoice) -> Seq<char> {
    match m.name {
        Some(n) => n@,
        None => m.id@,
    }
}

/// The sign-in picker (none without methods), on the method in effect.
pub fn auth_picker(methods: &Vec<AuthChoice>, current: Option<&str>, zh: bool) -> (r: Option<Picker>)
    ensures
        methods.len() == 0 ==> r is None,
        methods.len() > 0 ==> (r matches Some(p) && {
            &&& p.kind == PickerKind::Auth
            &&& p.title@ == (if zh { " 登录 · enter 选择 · esc 关闭 "@ } else { " sign in · enter select · esc close "@ })
            &&& p.offset == 0
            &&& p.items.len() == methods.len()
            &&& forall|k: int| 0 <= k < methods.len() ==> {
                let m = #[trigger] methods@[k];
                &&& p.items@[k].id@ == m.id@
                &&& p.items@[k].label@ == choice_label(m)
                &&& p.items@[k].meta@ == m.kind@
                &&& p.items@[k].provider is None
            }
            &&& p.sel as int == match current {
                Some(c) => sel_on(p.items@, c@),
                None => 0,
            }
        }),
{
    if methods.len() == 0 {
        return None;
    }
    let mut items: Vec<PickerItem> = Vec::new();
    let mut i: usize = 0;
    while i < methods.len()
        invariant
            i <= methods.len(),
            items.len() == i,
            forall|k: int| 0 <= k < i ==> {
                let m = #[trigger] methods@[k];
                &&& items@[k].id@ == m.id@
                &&& items@[k].label@ == choice_label(m)
                &&& items@[k].meta@ == m.kind@
                &&& items@[k].provider is None
            },
        decreases methods.len() - i,
    {
        let m = &methods[i];
        let label = match &m.name {
            Some(n) => n.clone(),
            None => m.id.clone(),
        };
        items.push(PickerItem { id: m.id.clone(), label, meta: m.kind.clone(), provider: None });
        i = i + 1;
    }
    let sel = match current {
        Some(c) => sel_for(&items, c),
        None => 0,
    };
    let title = if zh { " 登录 · enter 选择 · esc 关闭 " } else { " sign in · enter select · esc close " };
    Some(Picker { kind: PickerKind::Auth, title: title.to_owned(), sel, items, offset: 0 })
}

} // verus!
