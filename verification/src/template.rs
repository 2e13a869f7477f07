//! Prompt and workflow templates: the variables a template sees (`goal`,
//! `inputs`, an allow-listed `env`), the plain-text shortcut, rendering
//! through MiniJinja, and the errors it reports.

use minijinja::value::Value;
use minijinja::{AutoEscape, Environment, Error, UndefinedBehavior};
use minijinja::ErrorKind::{BadSerialization, SyntaxError, UndefinedError};
use vstd::prelude::*;
use crate::text::{
    chars_of, dec, dec_int, format_dec, format_dec_i64, lemma_rfind_char, push_str, push_vec, rfind_char,
    str_eq, string_from_chars, trim, trim_str,
};
use crate::ids::{hex_char, hex_digit};
use vstd::string::StringSliceAdditionalSpecFns;
use vstd::utf8::{
    decode_utf8, encode_utf8, encode_utf8_decode_utf8, encode_utf8_valid_utf8, is_char_boundary,
    is_char_boundary_iff_not_is_continuation_byte, is_char_boundary_start_end_of_seq, valid_utf8_split,
};

verus! {

/// A typed input value bound under `inputs`.
#[derive(Debug)]
pub enum InputValue {
    Str(String),
    Int(i64),
    Bool(bool),
    List(Vec<InputValue>),
    Table(Vec<(String, InputValue)>),
}

/// The environment a template may read under `env`: the variables, and the
/// names it is limited to, if any.
#[derive(Debug, Clone, PartialEq, Eq)]
pub struct EnvLookup {
    pub vars: Vec<(String, String)>,
    pub allowlist: Option<Vec<String>>,
}

/// The value of the first variable named `key`.
pub open spec fn var_value(vars: Seq<(String, String)>, key: Seq<char>) -> Option<Seq<char>>
    decreases vars.len(),
{
    if vars.len() == 0 {
        None
    } else if vars[0].0@ == key {
        Some(vars[0].1@)
    } else {
        var_value(vars.drop_first(), key)
    }
}

/// Whether the allow list, if there is one, names `key`.
pub open spec fn allowed(allowlist: Option<Vec<String>>, key: Seq<char>) -> bool {
    match allowlist {
        None => true,
        Some(names) => exists|i: int| 0 <= i < names@.len() && (#[trigger] names@[i])@ == key,
    }
}

/// What `env.<key>` gives a template.
pub open spec fn env_value(env: EnvLookup, key: Seq<char>) -> Option<Seq<char>> {
    if allowed(env.allowlist, key) {
        var_value(env.vars@, key)
    } else {
        None
    }
}

impl EnvLookup {
    /// The value a template reads as `env.<key>`: nothing for a name the
    /// allow list leaves out.
    pub fn get(&self, key: &str) -> (r: Option<String>)
        ensures
            match env_value(*self, key@) {
                Some(v) => r matches Some(s) && s@ == v,
                None => r is None,
            },
    {
        let ok = match &self.allowlist {
            Some(names) => {
                let mut found = false;
                let mut i: usize = 0;
                while i < names.len()
                    invariant
                        i <= names@.len(),
                        found == exists|j: int| 0 <= j < i && (#[trigger] names@[j])@ == key@,
                    decreases names.len() - i,
                {
                    if str_eq(names[i].as_str(), key) {
                        found = true;
                    }
                    i = i + 1;
                }
                found
            },
            None => true,
        };
        if !ok {
            return None;
        }
        let mut k: usize = 0;
        assert(self.vars@.subrange(0, self.vars@.len() as int) =~= self.vars@);
        while k < self.vars.len()
            invariant
                k <= self.vars@.len(),
                allowed(self.allowlist, key@),
                var_value(self.vars@, key@) == var_value(self.vars@.subrange(k as int, self.vars@.len() as int), key@),
            decreases self.vars.len() - k,
        {
            let ghost rest = self.vars@.subrange(k as int, self.vars@.len() as int);
            assert(rest[0] == self.vars@[k as int]);
            if str_eq(self.vars[k].0.as_str(), key) {
                return Some(self.vars[k].1.clone());
            }
            assert(rest.drop_first() =~= self.vars@.subrange(k + 1, self.vars@.len() as int));
            k = k + 1;
        }
        None
    }

    /// The variables a template can read, allow list applied: those it
    /// names, in their order.
    pub fn visible_vars(&self) -> (r: Vec<(String, String)>)
        ensures
            r@ == visible_of(*self),
    {
        let ghost pred = |p: (String, String)| allowed(self.allowlist, p.0@);
        let mut r: Vec<(String, String)> = Vec::new();
        let mut k: usize = 0;
        while k < self.vars.len()
            invariant
                k <= self.vars@.len(),
                pred == (|p: (String, String)| allowed(self.allowlist, p.0@)),
                r@ == self.vars@.take(k as int).filter(pred),
            decreases self.vars.len() - k,
        {
            proof {
                reveal(Seq::filter);
                assert(self.vars@.take(k + 1).drop_last() =~= self.vars@.take(k as int));
            }
            let name = &self.vars[k].0;
            let visible = match &self.allowlist {
                None => true,
                Some(names) => {
                    let mut found = false;
                    let mut i: usize = 0;
                    while i < names.len()
                        invariant
                            i <= names@.len(),
                            found == exists|j: int| 0 <= j < i && (#[trigger] names@[j])@ == name@,
                        decreases names.len() - i,
                    {
                        if str_eq(names[i].as_str(), name.as_str()) {
                            found = true;
                        }
                        i = i + 1;
                    }
                    found
                },
            };
            if visible {
                r.push((name.clone(), self.vars[k].1.clone()));
            }
            k = k + 1;
        }
        assert(self.vars@.take(self.vars@.len() as int) =~= self.vars@);
        r
    }
}

/// The variables of an environment lookup that its allow list lets through.
pub open spec fn visible_of(env: EnvLookup) -> Seq<(String, String)> {
    env.vars@.filter(|p: (String, String)| allowed(env.allowlist, p.0@))
}

/// Appending a variable changes only what an unbound name looks up.
proof fn lemma_var_value_push(vars: Seq<(String, String)>, v: (String, String), key: Seq<char>)
    ensures
        var_value(vars.push(v), key) == match var_value(vars, key) {
            Some(x) => Some(x),
            None => if v.0@ == key {
                Some(v.1@)
            } else {
                None
            },
        },
    decreases vars.len(),
{
    if vars.len() > 0 {
        assert(vars.push(v).drop_first() =~= vars.drop_first().push(v));
        assert(vars.push(v)[0] == vars[0]);
        lemma_var_value_push(vars.drop_first(), v, key);
    } else {
        assert(vars.push(v).drop_first() =~= Seq::<(String, String)>::empty());
        assert(vars.push(v)[0] == v);
        assert(var_value(Seq::<(String, String)>::empty(), key) is None);
        assert(var_value(vars, key) is None);
    }
}

/// The variables a template renders with: `goal`, `inputs` and `env`.
#[derive(Debug)]
pub struct TemplateContext {
    pub goal: Option<String>,
    pub inputs: Vec<(String, InputValue)>,
    pub env: Option<EnvLookup>,
}

impl TemplateContext {
    /// No goal, no inputs, no environment.
    pub fn new() -> (c: TemplateContext)
        ensures
            c.goal is None,
            c.inputs@.len() == 0,
            c.env is None,
    {
        TemplateContext { goal: None, inputs: Vec::new(), env: None }
    }

    pub fn with_goal(self, goal: String) -> (c: TemplateContext)
        ensures
            c == (TemplateContext { goal: Some(goal), ..self }),
    {
        TemplateContext { goal: Some(goal), ..self }
    }

    pub fn with_inputs(self, inputs: Vec<(String, InputValue)>) -> (c: TemplateContext)
        ensures
            c == (TemplateContext { inputs, ..self }),
    {
        TemplateContext { inputs, ..self }
    }

    /// The context for scanning a template before the goal is known: the
    /// inputs are bound and `{{ goal }}` renders as itself.
    pub fn for_input_scan(inputs: Vec<(String, InputValue)>) -> (c: TemplateContext)
        ensures
            c.goal matches Some(g) && g@ == "{{ goal }}"@,
            c.inputs == inputs,
            c.env is None,
    {
        TemplateContext::new().with_goal("{{ goal }}".to_string()).with_inputs(inputs)
    }

    /// Lets templates read every variable of `vars` as `env.<name>`.
    pub fn with_env_lookup(self, vars: Vec<(String, String)>) -> (c: TemplateContext)
        ensures
            c == (TemplateContext { env: Some(EnvLookup { vars, allowlist: None }), ..self }),
    {
        TemplateContext { env: Some(EnvLookup { vars, allowlist: None }), ..self }
    }

    /// Lets templates read the variables of `vars` that `allowlist` names.
    pub fn with_env_lookup_allowed(self, vars: Vec<(String, String)>, allowlist: Vec<String>) -> (c: TemplateContext)
        ensures
            c == (TemplateContext { env: Some(EnvLookup { vars, allowlist: Some(allowlist) }), ..self }),
    {
        TemplateContext { env: Some(EnvLookup { vars, allowlist: Some(allowlist) }), ..self }
    }
}

/// `s` contains `pat` somewhere.
pub open spec fn contains_seq(s: Seq<char>, pat: Seq<char>) -> bool {
    exists|i: int| 0 <= i && i + pat.len() <= s.len() && #[trigger] s.subrange(i, i + pat.len()) == pat
}

/// The text holds a MiniJinja delimiter: `{{`, `{%` or `{#`.
pub open spec fn has_template_syntax(s: Seq<char>) -> bool {
    contains_seq(s, seq!['{', '{']) || contains_seq(s, seq!['{', '%']) || contains_seq(s, seq!['{', '#'])
}

/// A delimiter `{p` starts at position `j`.
pub open spec fn opens_at(s: Seq<char>, j: int, p: char) -> bool {
    s[j] == '{' && s[j + 1] == p
}

/// One of the three delimiters starts at position `j`.
pub open spec fn opens_any(s: Seq<char>, j: int) -> bool {
    opens_at(s, j, '{') || opens_at(s, j, '%') || opens_at(s, j, '#')
}

proof fn lemma_contains_pair(s: Seq<char>, p: char, n: int)
    requires
        n == s.len() - 1,
    ensures
        contains_seq(s, seq!['{', p]) == exists|j: int| 0 <= j < n && #[trigger] opens_at(s, j, p),
{
    if contains_seq(s, seq!['{', p]) {
        let j = choose|j: int| 0 <= j && j + 2 <= s.len() && #[trigger] s.subrange(j, j + 2) == seq!['{', p];
        assert(s.subrange(j, j + 2)[0] == s[j]);
        assert(s.subrange(j, j + 2)[1] == s[j + 1]);
        assert(opens_at(s, j, p));
    }
    if exists|j: int| 0 <= j < n && #[trigger] opens_at(s, j, p) {
        let j = choose|j: int| 0 <= j < n && #[trigger] opens_at(s, j, p);
        assert(s.subrange(j, j + 2) =~= seq!['{', p]);
    }
}

/// Whether the string contains MiniJinja delimiter syntax.
pub fn contains_template_syntax(template: &str) -> (b: bool)
    ensures
        b == has_template_syntax(template@),
{
    let v = chars_of(template);
    let n = v.len();
    let mut found = false;
    let mut i: usize = 0;
    while n > 0 && i < n - 1
        invariant
            n == v@.len(),
            v@ == template@,
            n > 0 ==> i <= n - 1,
            n == 0 ==> i == 0,
            found == exists|j: int| 0 <= j < i && #[trigger] opens_any(v@, j),
        decreases n - i,
    {
        if v[i] == '{' && (v[i + 1] == '{' || v[i + 1] == '%' || v[i + 1] == '#') {
            found = true;
            assert(opens_any(v@, i as int));
        } else {
            assert(!opens_any(v@, i as int));
        }
        i = i + 1;
    }
    proof {
        let s = template@;
        let m = s.len() - 1;
        lemma_contains_pair(s, '{', m);
        lemma_contains_pair(s, '%', m);
        lemma_contains_pair(s, '#', m);
        if n > 0 {
            assert(i == m);
        }
        if found {
            let j = choose|j: int| 0 <= j < i && #[trigger] opens_any(v@, j);
            if opens_at(s, j, '{') {
            } else if opens_at(s, j, '%') {
            } else {
                assert(opens_at(s, j, '#'));
            }
        }
        if has_template_syntax(s) {
            if contains_seq(s, seq!['{', '{']) {
                let j = choose|j: int| 0 <= j < m && #[trigger] opens_at(s, j, '{');
                assert(opens_any(v@, j));
            } else if contains_seq(s, seq!['{', '%']) {
                let j = choose|j: int| 0 <= j < m && #[trigger] opens_at(s, j, '%');
                assert(opens_any(v@, j));
            } else {
                let j = choose|j: int| 0 <= j < m && #[trigger] opens_at(s, j, '#');
                assert(opens_any(v@, j));
            }
        }
    }
    found
}

/// Whether the string can be returned as it is, with no template to render.
pub fn is_plain_text(template: &str) -> (b: bool)
    ensures
        b == !has_template_syntax(template@),
{
    !contains_template_syntax(template)
}

// ---------------------------------------------------------------------------
// The context as JSON

/// A character as it appears inside a JSON string literal.
pub open spec fn json_char(c: char) -> Seq<char> {
    if c == '"' {
        seq!['\\', '"']
    } else if c == '\\' {
        seq!['\\', '\\']
    } else if c == '\n' {
        seq!['\\', 'n']
    } else if c == '\r' {
        seq!['\\', 'r']
    } else if c == '\t' {
        seq!['\\', 't']
    } else if (c as u32) < 0x20 {
        seq!['\\', 'u', '0', '0', hex_char((c as int) / 16), hex_char((c as int) % 16)]
    } else {
        seq![c]
    }
}

/// The characters of `s`, each escaped for JSON.
pub open spec fn json_escaped(s: Seq<char>) -> Seq<char>
    decreases s.len(),
{
    if s.len() == 0 {
        Seq::empty()
    } else {
        json_escaped(s.drop_last()) + json_char(s.last())
    }
}

/// A JSON string literal.
pub open spec fn json_string(s: Seq<char>) -> Seq<char> {
    seq!['"'] + json_escaped(s) + seq!['"']
}

/// The JSON text of an input value.
pub open spec fn json_value(v: InputValue) -> Seq<char>
    decreases v,
{
    match v {
        InputValue::Str(s) => json_string(s@),
        InputValue::Int(i) => dec_int(i as int),
        InputValue::Bool(b) => if b { "true"@ } else { "false"@ },
        InputValue::List(items) => seq!['['] + json_items(items@) + seq![']'],
        InputValue::Table(entries) => seq!['{'] + json_members(entries@) + seq!['}'],
    }
}

/// Comma-separated JSON texts of the values.
pub open spec fn json_items(items: Seq<InputValue>) -> Seq<char>
    decreases items,
{
    if items.len() == 0 {
        Seq::empty()
    } else if items.len() == 1 {
        json_value(items[0])
    } else {
        json_items(items.drop_last()) + seq![','] + json_value(items.last())
    }
}

/// Comma-separated JSON members `"key":value`.
pub open spec fn json_members(entries: Seq<(String, InputValue)>) -> Seq<char>
    decreases entries,
{
    if entries.len() == 0 {
        Seq::empty()
    } else if entries.len() == 1 {
        json_string(entries[0].0@) + seq![':'] + json_value(entries[0].1)
    } else {
        json_members(entries.drop_last()) + seq![','] + json_string(entries.last().0@) + seq![':'] + json_value(
            entries.last().1,
        )
    }
}

fn push_json_string(out: &mut Vec<char>, s: &str)
    ensures
        final(out)@ == old(out)@ + json_string(s@),
{
    let v = chars_of(s);
    let ghost start = out@;
    out.push('"');
    let mut i: usize = 0;
    while i < v.len()
        invariant
            i <= v@.len(),
            v@ == s@,
            out@ == start + seq!['"'] + json_escaped(v@.take(i as int)),
        decreases v.len() - i,
    {
        let c = v[i];
        let ghost before = out@;
        if c == '"' {
            out.push('\\');
            out.push('"');
        } else if c == '\\' {
            out.push('\\');
            out.push('\\');
        } else if c == '\n' {
            out.push('\\');
            out.push('n');
        } else if c == '\r' {
            out.push('\\');
            out.push('r');
        } else if c == '\t' {
            out.push('\\');
            out.push('t');
        } else if (c as u32) < 0x20 {
            push_control_escape(out, c);
        } else {
            out.push(c);
        }
        proof {
            assert(v@.take(i + 1).drop_last() =~= v@.take(i as int));
            assert(v@.take(i + 1).last() == c);
            assert(out@ =~= before + json_char(c));
        }
        i = i + 1;
    }
    out.push('"');
    assert(v@.take(v@.len() as int) =~= v@);
    assert(out@ =~= old(out)@ + json_string(s@));
}

fn push_control_escape(out: &mut Vec<char>, c: char)
    requires
        (c as u32) < 0x20,
    ensures
        final(out)@ == old(out)@ + seq!['\\', 'u', '0', '0', hex_char((c as int) / 16), hex_char((c as int) % 16)],
{
    let code: u32 = c as u32;
    let hi: u8 = (code / 16) as u8;
    let lo: u8 = (code % 16) as u8;
    out.push('\\');
    out.push('u');
    out.push('0');
    out.push('0');
    out.push(hex_digit(hi));
    out.push(hex_digit(lo));
}

fn push_json_value(out: &mut Vec<char>, v: &InputValue)
    ensures
        final(out)@ == old(out)@ + json_value(*v),
    decreases v,
{
    let ghost start = out@;
    match v {
        InputValue::Str(s) => {
            push_json_string(out, s.as_str());
        },
        InputValue::Int(i) => {
            push_vec(out, &format_dec_i64(*i));
        },
        InputValue::Bool(b) => {
            if *b {
                push_str(out, "true");
            } else {
                push_str(out, "false");
            }
        },
        InputValue::List(items) => {
            out.push('[');
            let mut k: usize = 0;
            while k < items.len()
                invariant
                    k <= items@.len(),
                    *v is List,
                    v->List_0 == *items,
                    out@ == start + seq!['['] + json_items(items@.take(k as int)),
                decreases items.len() - k,
            {
                let ghost before = out@;
                if k > 0 {
                    out.push(',');
                }
                proof {
                    assert(decreases_to!(*v => v->List_0));
                    assert(decreases_to!(v->List_0 => v->List_0@));
                    assert(decreases_to!(v->List_0@ => v->List_0@[k as int]));
                }
                push_json_value(out, &items[k]);
                proof {
                    let t = items@.take(k + 1);
                    assert(t.drop_last() =~= items@.take(k as int));
                    assert(t.last() == items@[k as int]);
                    if k == 0 {
                        assert(t.len() == 1);
                        assert(t[0] == items@[0]);
                    }
                    assert(out@ =~= start + seq!['['] + json_items(t));
                }
                k = k + 1;
            }
            out.push(']');
            assert(items@.take(items@.len() as int) =~= items@);
            assert(out@ =~= start + json_value(*v));
        },
        InputValue::Table(entries) => {
            out.push('{');
            let mut k: usize = 0;
            while k < entries.len()
                invariant
                    k <= entries@.len(),
                    *v is Table,
                    v->Table_0 == *entries,
                    out@ == start + seq!['{'] + json_members(entries@.take(k as int)),
                decreases entries.len() - k,
            {
                if k > 0 {
                    out.push(',');
                }
                push_json_string(out, entries[k].0.as_str());
                out.push(':');
                proof {
                    assert(decreases_to!(*v => v->Table_0));
                    assert(decreases_to!(v->Table_0 => v->Table_0@));
                    assert(decreases_to!(v->Table_0@ => v->Table_0@[k as int]));
                    assert(decreases_to!(v->Table_0@[k as int] => v->Table_0@[k as int].1));
                }
                push_json_value(out, &entries[k].1);
                proof {
                    let t = entries@.take(k + 1);
                    assert(t.drop_last() =~= entries@.take(k as int));
                    assert(t.last() == entries@[k as int]);
                    if k == 0 {
                        assert(t.len() == 1);
                        assert(t[0] == entries@[0]);
                    }
                    assert(out@ =~= start + seq!['{'] + json_members(t));
                }
                k = k + 1;
            }
            out.push('}');
            assert(entries@.take(entries@.len() as int) =~= entries@);
            assert(out@ =~= start + json_value(*v));
        },
    }
}

/// Comma-separated JSON members `"name":"value"` of string variables.
pub open spec fn json_string_members(vars: Seq<(String, String)>) -> Seq<char>
    decreases vars.len(),
{
    if vars.len() == 0 {
        Seq::empty()
    } else if vars.len() == 1 {
        json_string(vars[0].0@) + seq![':'] + json_string(vars[0].1@)
    } else {
        json_string_members(vars.drop_last()) + seq![','] + json_string(vars.last().0@) + seq![':'] + json_string(
            vars.last().1@,
        )
    }
}

/// The JSON object a template renders against: `goal` when set, `inputs`,
/// and `env` (the variables the allow list lets through) when set.
pub open spec fn context_json(ctx: TemplateContext) -> Seq<char> {
    let goal = match ctx.goal {
        Some(g) => "\"goal\":"@ + json_string(g@) + seq![','],
        None => Seq::empty(),
    };
    let env = match ctx.env {
        Some(e) => ",\"env\":{"@ + json_string_members(visible_of(e)) + seq!['}'],
        None => Seq::empty(),
    };
    seq!['{'] + goal + "\"inputs\":{"@ + json_members(ctx.inputs@) + seq!['}'] + env + seq!['}']
}

/// Writes the JSON object a template renders against.
pub fn render_context_json(ctx: &TemplateContext) -> (s: String)
    ensures
        s@ == context_json(*ctx),
{
    let mut out: Vec<char> = Vec::new();
    out.push('{');
    let ghost after_open = out@;
    match &ctx.goal {
        Some(g) => {
            push_str(&mut out, "\"goal\":");
            push_json_string(&mut out, g.as_str());
            out.push(',');
        },
        None => {},
    }
    let ghost after_goal = out@;
    push_str(&mut out, "\"inputs\":{");
    let ghost inputs_start = out@;
    let mut k: usize = 0;
    while k < ctx.inputs.len()
        invariant
            k <= ctx.inputs@.len(),
            out@ == inputs_start + json_members(ctx.inputs@.take(k as int)),
        decreases ctx.inputs.len() - k,
    {
        if k > 0 {
            out.push(',');
        }
        push_json_string(&mut out, ctx.inputs[k].0.as_str());
        out.push(':');
        push_json_value(&mut out, &ctx.inputs[k].1);
        proof {
            let t = ctx.inputs@.take(k + 1);
            assert(t.drop_last() =~= ctx.inputs@.take(k as int));
            assert(t.last() == ctx.inputs@[k as int]);
            if k == 0 {
                assert(t.len() == 1);
                assert(t[0] == ctx.inputs@[0]);
            }
            assert(out@ =~= inputs_start + json_members(t));
        }
        k = k + 1;
    }
    assert(ctx.inputs@.take(ctx.inputs@.len() as int) =~= ctx.inputs@);
    out.push('}');
    let ghost after_inputs = out@;
    match &ctx.env {
        Some(e) => {
            let vars = e.visible_vars();
            push_str(&mut out, ",\"env\":{");
            let ghost env_start = out@;
            let mut j: usize = 0;
            while j < vars.len()
                invariant
                    j <= vars@.len(),
                    out@ == env_start + json_string_members(vars@.take(j as int)),
                decreases vars.len() - j,
            {
                if j > 0 {
                    out.push(',');
                }
                push_json_string(&mut out, vars[j].0.as_str());
                out.push(':');
                push_json_string(&mut out, vars[j].1.as_str());
                proof {
                    let t = vars@.take(j + 1);
                    assert(t.drop_last() =~= vars@.take(j as int));
                    assert(t.last() == vars@[j as int]);
                    if j == 0 {
                        assert(t.len() == 1);
                        assert(t[0] == vars@[0]);
                    }
                    assert(out@ =~= env_start + json_string_members(t));
                }
                j = j + 1;
            }
            assert(vars@.take(vars@.len() as int) =~= vars@);
            out.push('}');
        },
        None => {},
    }
    out.push('}');
    assert(out@ =~= context_json(*ctx));
    string_from_chars(&out)
}

// ---------------------------------------------------------------------------
// Errors

/// The kind of a failed render, as MiniJinja reports it.
#[derive(Debug, Clone, Copy, PartialEq, Eq, Structural)]
pub enum RenderErrorKind {
    Syntax,
    Undefined,
    Other,
}

/// What MiniJinja reports of a failed render: the kind, the line, the
/// template's name and source, and the byte range of the failing part.
#[derive(Debug, Clone, PartialEq, Eq)]
pub struct RenderFailure {
    pub kind: RenderErrorKind,
    pub line: Option<usize>,
    pub name: Option<String>,
    pub source: Option<String>,
    pub range: Option<(usize, usize)>,
}

/// Errors from rendering a template. `span` is the failing part as a byte
/// offset and length.
#[derive(Debug, Clone, PartialEq, Eq)]
pub enum TemplateError {
    Syntax {
        line: Option<u32>,
        source_name: Option<String>,
        source_text: Option<String>,
        span: Option<(usize, usize)>,
    },
    UndefinedVariable {
        expression: Option<String>,
        line: Option<u32>,
        source_name: Option<String>,
        source_text: Option<String>,
        span: Option<(usize, usize)>,
    },
    Render {
        line: Option<u32>,
        source_name: Option<String>,
        source_text: Option<String>,
        span: Option<(usize, usize)>,
    },
}

/// The text of bytes `start..end` of `text`, when both ends fall on
/// character boundaries within it.
pub open spec fn byte_slice(text: Seq<char>, start: usize, end: usize) -> Option<Seq<char>> {
    let bytes = encode_utf8(text);
    if start <= end && is_char_boundary(bytes, start as int) && is_char_boundary(bytes, end as int) {
        Some(decode_utf8(bytes.subrange(start as int, end as int)))
    } else {
        None
    }
}

/// The failing expression: the trimmed source text that the error's range
/// covers.
pub open spec fn failing_expression_in(source: Option<Seq<char>>, range: Option<(usize, usize)>) -> Option<Seq<char>> {
    match (range, source) {
        (Some(r), Some(src)) => match byte_slice(src, r.0, r.1) {
            Some(t) => Some(trim(t)),
            None => None,
        },
        _ => None,
    }
}

/// A line number that fits in 32 bits.
pub open spec fn line_u32(line: Option<usize>) -> Option<u32> {
    match line {
        Some(l) => if l <= u32::MAX { Some(l as u32) } else { None },
        None => None,
    }
}

/// The span of a range: its start and length, when it does not run
/// backwards.
pub open spec fn span_of(range: Option<(usize, usize)>) -> Option<(usize, usize)> {
    match range {
        Some(r) => if r.1 >= r.0 { Some((r.0, (r.1 - r.0) as usize)) } else { None },
        None => None,
    }
}

/// The error a failed render becomes, from what MiniJinja reported as
/// plain values (kind code, line, template name, source, byte range).
pub open spec fn error_matches_view(
    e: TemplateError,
    fv: (u8, Option<usize>, Option<Seq<char>>, Option<Seq<char>>, Option<(usize, usize)>),
) -> bool {
    &&& e.line_spec() == line_u32(fv.1)
    &&& opt_view(e.source_name_spec()) == fv.2
    &&& opt_view(e.source_text_spec()) == fv.3
    &&& e.span_spec() == span_of(fv.4)
    &&& if fv.0 == 0 {
        e is Syntax
    } else if fv.0 == 1 {
        e matches TemplateError::UndefinedVariable { expression, .. } && opt_view(expression)
            == failing_expression_in(fv.3, fv.4)
    } else {
        e is Render
    }
}

/// The error a failed render becomes, by the characters of its texts.
pub open spec fn error_matches(e: TemplateError, f: RenderFailure) -> bool {
    error_matches_view(e, failure_view(f))
}

pub open spec fn opt_view(o: Option<String>) -> Option<Seq<char>> {
    match o {
        Some(s) => Some(s@),
        None => None,
    }
}

fn clone_opt(o: &Option<String>) -> (r: Option<String>)
    ensures
        opt_view(r) == opt_view(*o),
{
    match o {
        Some(s) => Some(s.clone()),
        None => None,
    }
}

/// The text of bytes `start..end` of `text`, if both ends are character
/// boundaries within it.
fn slice_bytes(text: &str, start: usize, end: usize) -> (r: Option<String>)
    ensures
        opt_view(r) == byte_slice(text@, start, end),
{
    proof {
        broadcast use vstd::utf8::group_utf8_lib;
        encode_utf8_valid_utf8(text@);
    }
    let ghost bytes = text.spec_bytes();
    if start > end || !text.is_char_boundary(start) || !text.is_char_boundary(end) {
        return None;
    }
    let (head, _) = text.split_at(end);
    proof {
        broadcast use vstd::utf8::group_utf8_lib;
        valid_utf8_split(bytes, end as int);
        encode_utf8_valid_utf8(head@);
        if start < end {
            is_char_boundary_iff_not_is_continuation_byte(bytes, start as int);
            is_char_boundary_iff_not_is_continuation_byte(head.spec_bytes(), start as int);
        } else {
            is_char_boundary_start_end_of_seq(head.spec_bytes());
        }
    }
    let (_, mid) = head.split_at(start);
    proof {
        broadcast use vstd::utf8::group_utf8_lib;
        assert(mid.spec_bytes() =~= bytes.subrange(start as int, end as int));
        encode_utf8_decode_utf8(mid@);
    }
    Some(mid.to_string())
}

impl TemplateError {
    pub open spec fn line_spec(&self) -> Option<u32> {
        match self {
            TemplateError::Syntax { line, .. } => *line,
            TemplateError::UndefinedVariable { line, .. } => *line,
            TemplateError::Render { line, .. } => *line,
        }
    }

    pub open spec fn source_name_spec(&self) -> Option<String> {
        match self {
            TemplateError::Syntax { source_name, .. } => *source_name,
            TemplateError::UndefinedVariable { source_name, .. } => *source_name,
            TemplateError::Render { source_name, .. } => *source_name,
        }
    }

    pub open spec fn source_text_spec(&self) -> Option<String> {
        match self {
            TemplateError::Syntax { source_text, .. } => *source_text,
            TemplateError::UndefinedVariable { source_text, .. } => *source_text,
            TemplateError::Render { source_text, .. } => *source_text,
        }
    }

    pub open spec fn span_spec(&self) -> Option<(usize, usize)> {
        match self {
            TemplateError::Syntax { span, .. } => *span,
            TemplateError::UndefinedVariable { span, .. } => *span,
            TemplateError::Render { span, .. } => *span,
        }
    }

    /// The error for what MiniJinja reported.
    pub fn from_failure(f: &RenderFailure) -> (e: TemplateError)
        ensures
            error_matches(e, *f),
    {
        let line: Option<u32> = match f.line {
            Some(l) => if l <= 0xFFFF_FFFFusize { Some(l as u32) } else { None },
            None => None,
        };
        let span: Option<(usize, usize)> = match f.range {
            Some(r) => if r.1 >= r.0 { Some((r.0, r.1 - r.0)) } else { None },
            None => None,
        };
        match f.kind {
            RenderErrorKind::Syntax => TemplateError::Syntax {
                line,
                source_name: clone_opt(&f.name),
                source_text: clone_opt(&f.source),
                span,
            },
            RenderErrorKind::Undefined => {
                let expression = match (&f.range, &f.source) {
                    (Some(r), Some(src)) => match slice_bytes(src.as_str(), r.0, r.1) {
                        Some(t) => Some(trim_str(t.as_str())),
                        None => None,
                    },
                    _ => None,
                };
                TemplateError::UndefinedVariable {
                    expression,
                    line,
                    source_name: clone_opt(&f.name),
                    source_text: clone_opt(&f.source),
                    span,
                }
            },
            RenderErrorKind::Other => TemplateError::Render {
                line,
                source_name: clone_opt(&f.name),
                source_text: clone_opt(&f.source),
                span,
            },
        }
    }

    /// The expression an undefined-variable error is about.
    pub fn expression(&self) -> (r: Option<&str>)
        ensures
            match self {
                TemplateError::UndefinedVariable { expression, .. } => match expression {
                    Some(x) => r matches Some(y) && y@ == x@,
                    None => r is None,
                },
                _ => r is None,
            },
    {
        match self {
            TemplateError::UndefinedVariable { expression, .. } => match expression {
                Some(x) => Some(x.as_str()),
                None => None,
            },
            _ => None,
        }
    }

    pub fn line(&self) -> (r: Option<u32>)
        ensures
            r == self.line_spec(),
    {
        match self {
            TemplateError::Syntax { line, .. } => *line,
            TemplateError::UndefinedVariable { line, .. } => *line,
            TemplateError::Render { line, .. } => *line,
        }
    }

    pub fn source_name(&self) -> (r: Option<&str>)
        ensures
            match self.source_name_spec() {
                Some(x) => r matches Some(y) && y@ == x@,
                None => r is None,
            },
    {
        let n = match self {
            TemplateError::Syntax { source_name, .. } => source_name,
            TemplateError::UndefinedVariable { source_name, .. } => source_name,
            TemplateError::Render { source_name, .. } => source_name,
        };
        match n {
            Some(x) => Some(x.as_str()),
            None => None,
        }
    }

    pub fn source_text(&self) -> (r: Option<&str>)
        ensures
            match self.source_text_spec() {
                Some(x) => r matches Some(y) && y@ == x@,
                None => r is None,
            },
    {
        let t = match self {
            TemplateError::Syntax { source_text, .. } => source_text,
            TemplateError::UndefinedVariable { source_text, .. } => source_text,
            TemplateError::Render { source_text, .. } => source_text,
        };
        match t {
            Some(x) => Some(x.as_str()),
            None => None,
        }
    }

    pub fn span(&self) -> (r: Option<(usize, usize)>)
        ensures
            r == self.span_spec(),
    {
        match self {
            TemplateError::Syntax { span, .. } => *span,
            TemplateError::UndefinedVariable { span, .. } => *span,
            TemplateError::Render { span, .. } => *span,
        }
    }

    /// The diagnostic code of the error.
    pub fn code(&self) -> (s: &'static str)
        ensures
            s@ == match self {
                TemplateError::Syntax { .. } => "fabro::template::syntax"@,
                TemplateError::UndefinedVariable { .. } => "fabro::template::undefined_variable"@,
                TemplateError::Render { .. } => "fabro::template::render"@,
            },
    {
        match self {
            TemplateError::Syntax { .. } => "fabro::template::syntax",
            TemplateError::UndefinedVariable { .. } => "fabro::template::undefined_variable",
            TemplateError::Render { .. } => "fabro::template::render",
        }
    }
}

/// ` `expr``, or nothing.
pub open spec fn expr_suffix(expression: Option<Seq<char>>) -> Seq<char> {
    match expression {
        Some(e) => " `"@ + e + "`"@,
        None => Seq::empty(),
    }
}

/// ` at line N`, or nothing.
pub open spec fn location_suffix(line: Option<u32>) -> Seq<char> {
    match line {
        Some(l) => " at line "@ + dec(l as nat),
        None => Seq::empty(),
    }
}

/// The 1-based column of byte `offset` in `text`: one more than the
/// characters between the line's start and the offset.
pub open spec fn column_at(text: Seq<char>, offset: usize) -> Option<u32> {
    let bytes = encode_utf8(text);
    if is_char_boundary(bytes, offset as int) {
        let p = decode_utf8(bytes.subrange(0, offset as int));
        let c = p.len() - rfind_char(p, '\n');
        if c <= u32::MAX {
            Some(c as u32)
        } else {
            None
        }
    } else {
        None
    }
}

impl TemplateError {
    /// How the error reads.
    pub open spec fn message(&self) -> Seq<char> {
        match self {
            TemplateError::Syntax { line, .. } => "template syntax error"@ + location_suffix(*line),
            TemplateError::UndefinedVariable { expression, line, .. } => "undefined template variable"@
                + expr_suffix(opt_view(*expression)) + location_suffix(*line),
            TemplateError::Render { line, .. } => "template render error"@ + location_suffix(*line),
        }
    }

    pub fn to_string(&self) -> (s: String)
        ensures
            s@ == self.message(),
    {
        let mut out: Vec<char> = Vec::new();
        let line = match self {
            TemplateError::Syntax { line, .. } => {
                push_str(&mut out, "template syntax error");
                *line
            },
            TemplateError::UndefinedVariable { expression, line, .. } => {
                push_str(&mut out, "undefined template variable");
                match expression {
                    Some(e) => {
                        push_str(&mut out, " `");
                        push_str(&mut out, e.as_str());
                        push_str(&mut out, "`");
                    },
                    None => {},
                }
                *line
            },
            TemplateError::Render { line, .. } => {
                push_str(&mut out, "template render error");
                *line
            },
        };
        match line {
            Some(l) => {
                push_str(&mut out, " at line ");
                push_vec(&mut out, &format_dec(l as u64));
            },
            None => {},
        }
        assert(out@ =~= self.message());
        string_from_chars(&out)
    }

    /// The 1-based column where the error's span starts, when the error
    /// has both source text and a span and the span starts on a character
    /// boundary within the text.
    pub fn column(&self) -> (r: Option<u32>)
        ensures
            match (self.source_text_spec(), self.span_spec()) {
                (Some(t), Some(sp)) => r == column_at(t@, sp.0),
                _ => r is None,
            },
    {
        let text = match self.source_text() {
            Some(t) => t,
            None => {
                return None;
            },
        };
        let offset = match self.span() {
            Some(sp) => sp.0,
            None => {
                return None;
            },
        };
        proof {
            broadcast use vstd::utf8::group_utf8_lib;
            encode_utf8_valid_utf8(text@);
        }
        if !text.is_char_boundary(offset) {
            return None;
        }
        let (prefix, _) = text.split_at(offset);
        proof {
            broadcast use vstd::utf8::group_utf8_lib;
            encode_utf8_decode_utf8(prefix@);
        }
        let p = chars_of(prefix);
        let n = p.len();
        let mut i: usize = n;
        while i > 0 && p[i - 1] != '\n'
            invariant
                i <= n == p@.len(),
                forall|j: int| i <= j < n ==> p@[j] != '\n',
            decreases i,
        {
            i = i - 1;
        }
        proof {
            lemma_rfind_char(p@, '\n');
            let k = rfind_char(p@, '\n');
            if i > 0 {
                assert(k == i - 1) by {
                    if k < i - 1 {
                        assert(p@[i - 1] != '\n');
                    }
                }
            } else {
                assert(k < 0) by {
                    if k >= 0 {
                        assert(p@[k] != '\n');
                    }
                }
            }
        }
        let c: u128 = (n - i) as u128 + 1;
        if c <= 0xFFFF_FFFFu128 {
            Some(c as u32)
        } else {
            None
        }
    }
}

// ---------------------------------------------------------------------------
// Rendering

#[verifier::external_type_specification]
#[verifier::external_body]
pub struct ExMinijinjaError(minijinja::Error);

/// The code of a failure kind: 0 for a syntax error, 1 for an undefined
/// variable, 2 for any other error.
pub open spec fn kind_code(k: RenderErrorKind) -> u8 {
    match k {
        RenderErrorKind::Syntax => 0,
        RenderErrorKind::Undefined => 1,
        RenderErrorKind::Other => 2,
    }
}

/// A failure as plain values: its kind's code, line, template name and
/// source, and byte range.
pub open spec fn failure_view(f: RenderFailure) -> (u8, Option<usize>, Option<Seq<char>>, Option<Seq<char>>, Option<(usize, usize)>) {
    (kind_code(f.kind), f.line, opt_view(f.name), opt_view(f.source), f.range)
}

/// What MiniJinja's `Environment::render_str` gives for `template` against
/// the JSON object `context`, with undefined variables an error when
/// `strict` and empty otherwise, no auto-escaping and debug information on:
/// the rendered text, or what its error reports (kind code, line, template
/// name, template source, byte range).
pub uninterp spec fn minijinja_str_output(template: Seq<char>, context: Seq<char>, strict: bool) -> Result<
    Seq<char>,
    (u8, Option<usize>, Option<Seq<char>>, Option<Seq<char>>, Option<(usize, usize)>),
>;

/// What MiniJinja's `Environment::render_named_str` gives for `template`
/// under the name `name`, in the same setting as `minijinja_str_output`.
pub uninterp spec fn minijinja_named_output(name: Seq<char>, template: Seq<char>, context: Seq<char>, strict: bool) -> Result<
    Seq<char>,
    (u8, Option<usize>, Option<Seq<char>>, Option<Seq<char>>, Option<(usize, usize)>),
>;

/// What MiniJinja gives for `template`, under `name` when one is given.
pub open spec fn minijinja_output(name: Option<Seq<char>>, template: Seq<char>, context: Seq<char>, strict: bool) -> Result<
    Seq<char>,
    (u8, Option<usize>, Option<Seq<char>>, Option<Seq<char>>, Option<(usize, usize)>),
> {
    match name {
        Some(n) => minijinja_named_output(n, template, context, strict),
        None => minijinja_str_output(template, context, strict),
    }
}

pub open spec fn opt_str_view(o: Option<&str>) -> Option<Seq<char>> {
    match o {
        Some(s) => Some(s@),
        None => None,
    }
}

/// A render's text, or its failure as plain values, is `out`.
pub open spec fn render_reports(r: Result<String, RenderFailure>, out: Result<
    Seq<char>,
    (u8, Option<usize>, Option<Seq<char>>, Option<Seq<char>>, Option<(usize, usize)>),
>) -> bool {
    match r {
        Ok(s) => out == Ok::<_, (u8, Option<usize>, Option<Seq<char>>, Option<Seq<char>>, Option<(usize, usize)>)>(s@),
        Err(f) => out == Err::<Seq<char>, _>(failure_view(f)),
    }
}

/// Renders with MiniJinja's `Environment::render_str`, after reading the
/// context with `serde_json::from_str` and handing it over with
/// `Value::from_serialize`. An error is read through `Error::kind`, `line`,
/// `name`, `template_source` and `range`. Output and error are named; the
/// template is named `<string>`, so an error that names a template names
/// that one, and the source an error carries is that of the one template
/// there is, the one given (the engine attaches the source of the template
/// it runs).
#[verifier::external_body]
fn minijinja_render_str(template: &str, context: &str, strict: bool) -> (r: Result<String, RenderFailure>)
    ensures
        render_reports(r, minijinja_str_output(template@, context@, strict)),
        r matches Err(f) ==> (f.name matches Some(n) ==> n@ == "<string>"@),
        r matches Err(f) ==> (f.source matches Some(t) ==> t@ == template@),
{
    let mut env = Environment::new();
    env.set_undefined_behavior(if strict { UndefinedBehavior::Strict } else { UndefinedBehavior::Chainable });
    env.set_auto_escape_callback(|_| AutoEscape::None);
    env.set_debug(true);
    serde_json::from_str::<serde_json::Value>(context)
        .map_err(|_| Error::from(BadSerialization))
        .and_then(|v| env.render_str(template, Value::from_serialize(v)))
        .map_err(|e| RenderFailure {
            kind: match e.kind() { SyntaxError => RenderErrorKind::Syntax, UndefinedError => RenderErrorKind::Undefined, _ => RenderErrorKind::Other },
            line: e.line(), name: e.name().map(str::to_string), source: e.template_source().map(str::to_string), range: e.range().map(|x| (x.start, x.end)),
        })
}

/// `minijinja_render_str` through `Environment::render_named_str`, which
/// gives the template the name `name`; an error that names a template names
/// that one (the lexer, the parser and the engine tag errors with the name
/// of the template being compiled or run, and no other template is loaded).
#[verifier::external_body]
fn minijinja_render_named_str(name: &str, template: &str, context: &str, strict: bool) -> (r: Result<String, RenderFailure>)
    ensures
        render_reports(r, minijinja_named_output(name@, template@, context@, strict)),
        r matches Err(f) ==> (f.name matches Some(n) ==> n@ == name@),
        r matches Err(f) ==> (f.source matches Some(t) ==> t@ == template@),
{
    let mut env = Environment::new();
    env.set_undefined_behavior(if strict { UndefinedBehavior::Strict } else { UndefinedBehavior::Chainable });
    env.set_auto_escape_callback(|_| AutoEscape::None);
    env.set_debug(true);
    serde_json::from_str::<serde_json::Value>(context)
        .map_err(|_| Error::from(BadSerialization))
        .and_then(|v| env.render_named_str(name, template, Value::from_serialize(v)))
        .map_err(|e| RenderFailure {
            kind: match e.kind() { SyntaxError => RenderErrorKind::Syntax, UndefinedError => RenderErrorKind::Undefined, _ => RenderErrorKind::Other },
            line: e.line(), name: e.name().map(str::to_string), source: e.template_source().map(str::to_string), range: e.range().map(|x| (x.start, x.end)),
        })
}

/// What a render gives: plain text as it is; anything else rendered by
/// MiniJinja against the context, or the error made from what MiniJinja
/// reported.
pub open spec fn render_outcome(
    name: Option<Seq<char>>,
    template: Seq<char>,
    ctx: TemplateContext,
    strict: bool,
    r: Result<String, TemplateError>,
) -> bool {
    if !has_template_syntax(template) {
        r matches Ok(s) && s@ == template
    } else {
        match minijinja_output(name, template, context_json(ctx), strict) {
            Ok(out) => r matches Ok(s) && s@ == out,
            Err(fv) => r matches Err(e) && error_matches_view(e, fv),
        }
    }
}

fn render_with(name: Option<&str>, template: &str, ctx: &TemplateContext, strict: bool) -> (r: Result<String, TemplateError>)
    ensures
        render_outcome(opt_str_view(name), template@, *ctx, strict, r),
        name matches Some(nm) ==> (r matches Err(e) ==> (e.source_name_spec() matches Some(sn) ==> sn@ == nm@)),
        name is None ==> (r matches Err(e) ==> (e.source_name_spec() matches Some(sn) ==> sn@ == "<string>"@)),
        r matches Err(e) ==> (e.source_text_spec() matches Some(t) ==> t@ == template@),
{
    if is_plain_text(template) {
        return Ok(template.to_string());
    }
    let json = render_context_json(ctx);
    let rendered = match name {
        Some(n) => minijinja_render_named_str(n, template, json.as_str(), strict),
        None => minijinja_render_str(template, json.as_str(), strict),
    };
    match rendered {
        Ok(s) => Ok(s),
        Err(f) => Err(TemplateError::from_failure(&f)),
    }
}

/// Renders a template; an undefined variable is an error.
pub fn render(template: &str, ctx: &TemplateContext) -> (r: Result<String, TemplateError>)
    ensures
        render_outcome(None, template@, *ctx, true, r),
        r matches Err(e) ==> (e.source_text_spec() matches Some(t) ==> t@ == template@),
        r matches Err(e) ==> (e.source_name_spec() matches Some(sn) ==> sn@ == "<string>"@),
{
    render_with(None, template, ctx, true)
}

/// Renders a template under a source name that errors report.
pub fn render_named(name: &str, template: &str, ctx: &TemplateContext) -> (r: Result<String, TemplateError>)
    ensures
        render_outcome(Some(name@), template@, *ctx, true, r),
        r matches Err(e) ==> (e.source_name_spec() matches Some(sn) ==> sn@ == name@),
        r matches Err(e) ==> (e.source_text_spec() matches Some(t) ==> t@ == template@),
{
    render_with(Some(name), template, ctx, true)
}

/// Renders a template with undefined variables and attribute chains as
/// empty text.
pub fn render_lenient(template: &str, ctx: &TemplateContext) -> (r: Result<String, TemplateError>)
    ensures
        render_outcome(None, template@, *ctx, false, r),
        r matches Err(e) ==> (e.source_text_spec() matches Some(t) ==> t@ == template@),
        r matches Err(e) ==> (e.source_name_spec() matches Some(sn) ==> sn@ == "<string>"@),
{
    render_with(None, template, ctx, false)
}

/// `render_lenient` under a source name that errors report.
pub fn render_lenient_named(name: &str, template: &str, ctx: &TemplateContext) -> (r: Result<String, TemplateError>)
    ensures
        render_outcome(Some(name@), template@, *ctx, false, r),
        r matches Err(e) ==> (e.source_name_spec() matches Some(sn) ==> sn@ == name@),
        r matches Err(e) ==> (e.source_text_spec() matches Some(t) ==> t@ == template@),
{
    render_with(Some(name), template, ctx, false)
}

} // verus!
