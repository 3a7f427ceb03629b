//! JSON text of the values that the wire formats are made of.

use crate::text::{
    decimal, decimal_text, is_digit, lemma_decimal_digits, lemma_decimal_injective, signed_decimal,
    signed_text,
};
use vstd::prelude::*;

verus! {

/// The hexadecimal digit, in lower case, of a number below sixteen.
pub open spec fn hex_digit(n: nat) -> char {
    if n < 10 {
        (n + 48) as char
    } else {
        (n + 87) as char
    }
}

/// How JSON writes one character inside a string.
pub open spec fn escaped_char(c: char) -> Seq<char> {
    if c == '"' {
        seq!['\\', '"']
    } else if c == '\\' {
        seq!['\\', '\\']
    } else if c == '\u{8}' {
        seq!['\\', 'b']
    } else if c == '\u{9}' {
        seq!['\\', 't']
    } else if c == '\u{a}' {
        seq!['\\', 'n']
    } else if c == '\u{c}' {
        seq!['\\', 'f']
    } else if c == '\u{d}' {
        seq!['\\', 'r']
    } else if (c as u32) < 32 {
        seq!['\\', 'u', '0', '0', hex_digit(c as nat / 16), hex_digit(c as nat % 16)]
    } else {
        seq![c]
    }
}

/// The characters of a text as JSON writes them inside a string.
pub open spec fn escaped(s: Seq<char>) -> Seq<char>
    decreases s.len(),
{
    if s.len() == 0 {
        Seq::empty()
    } else {
        escaped_char(s[0]) + escaped(s.drop_first())
    }
}

/// The JSON string that stands for a text.
pub open spec fn quoted(s: Seq<char>) -> Seq<char> {
    seq!['"'] + escaped(s) + seq!['"']
}

/// Calls `serde_json::to_string` on a text. The result is the text between
/// quotation marks, with quotation marks, backslashes and control characters
/// escaped, and every other character as it is.
#[verifier::external_body]
pub(crate) fn json_string(s: &str) -> (r: String)
    ensures
        r@ == quoted(s@),
{
    serde_json::to_string(s).unwrap()
}

proof fn lemma_escaped_char_first(c: char)
    ensures
        escaped_char(c).len() > 0,
        escaped_char(c)[0] != '"',
{
}

proof fn lemma_escaped_char_decodes(c: char, d: char, x: Seq<char>, y: Seq<char>)
    requires
        escaped_char(c) + x == escaped_char(d) + y,
    ensures
        c == d,
        x == y,
{
    let u = escaped_char(c) + x;
    let v = escaped_char(d) + y;
    assert(u[0] == escaped_char(c)[0]);
    assert(v[0] == escaped_char(d)[0]);
    if escaped_char(c).len() > 1 {
        assert(u[1] == escaped_char(c)[1]);
    }
    if escaped_char(d).len() > 1 {
        assert(v[1] == escaped_char(d)[1]);
    }
    if escaped_char(c).len() == 6 && escaped_char(d).len() == 6 {
        assert(u[4] == escaped_char(c)[4]);
        assert(v[4] == escaped_char(d)[4]);
        assert(u[5] == escaped_char(c)[5]);
        assert(v[5] == escaped_char(d)[5]);
    }
    assert(c == d);
    assert(x =~= u.skip(escaped_char(c).len() as int));
    assert(y =~= v.skip(escaped_char(d).len() as int));
}

proof fn lemma_escaped_decodes(a: Seq<char>, b: Seq<char>, x: Seq<char>, y: Seq<char>)
    requires
        escaped(a) + seq!['"'] + x == escaped(b) + seq!['"'] + y,
    ensures
        a == b,
        x == y,
    decreases a.len(),
{
    let u = escaped(a) + seq!['"'] + x;
    let v = escaped(b) + seq!['"'] + y;
    if a.len() == 0 && b.len() == 0 {
        assert(a =~= b);
        assert(x =~= u.skip(1));
        assert(y =~= v.skip(1));
    } else if a.len() == 0 {
        lemma_escaped_char_first(b[0]);
        assert(v[0] == escaped_char(b[0])[0]);
        assert(u[0] == '"');
    } else if b.len() == 0 {
        lemma_escaped_char_first(a[0]);
        assert(u[0] == escaped_char(a[0])[0]);
        assert(v[0] == '"');
    } else {
        let p = escaped(a.drop_first()) + seq!['"'] + x;
        let q = escaped(b.drop_first()) + seq!['"'] + y;
        assert(u =~= escaped_char(a[0]) + p);
        assert(v =~= escaped_char(b[0]) + q);
        lemma_escaped_char_decodes(a[0], b[0], p, q);
        lemma_escaped_decodes(a.drop_first(), b.drop_first(), x, y);
        assert(a =~= seq![a[0]] + a.drop_first());
        assert(b =~= seq![b[0]] + b.drop_first());
    }
}

/// A JSON string marks its own end: what two texts that begin with a JSON
/// string have in common fixes both the string and the rest.
pub proof fn lemma_quoted_decodes(a: Seq<char>, b: Seq<char>, x: Seq<char>, y: Seq<char>)
    requires
        quoted(a) + x == quoted(b) + y,
    ensures
        a == b,
        x == y,
{
    let u = quoted(a) + x;
    let v = quoted(b) + y;
    assert(u.skip(1) =~= escaped(a) + seq!['"'] + x);
    assert(v.skip(1) =~= escaped(b) + seq!['"'] + y);
    lemma_escaped_decodes(a, b, x, y);
}

/// A text that does not begin with a digit.
pub open spec fn ends_number(x: Seq<char>) -> bool {
    x.len() > 0 && !is_digit(x[0])
}

proof fn lemma_decimal_decodes(a: nat, b: nat, x: Seq<char>, y: Seq<char>)
    requires
        decimal(a) + x == decimal(b) + y,
        ends_number(x),
        ends_number(y),
    ensures
        a == b,
        x == y,
{
    lemma_decimal_digits(a);
    lemma_decimal_digits(b);
    let u = decimal(a) + x;
    let v = decimal(b) + y;
    if decimal(a).len() < decimal(b).len() {
        assert(u[decimal(a).len() as int] == x[0]);
        assert(v[decimal(a).len() as int] == decimal(b)[decimal(a).len() as int]);
    } else if decimal(b).len() < decimal(a).len() {
        assert(v[decimal(b).len() as int] == y[0]);
        assert(u[decimal(b).len() as int] == decimal(a)[decimal(b).len() as int]);
    }
    assert(decimal(a) =~= u.take(decimal(a).len() as int));
    assert(decimal(b) =~= v.take(decimal(b).len() as int));
    assert(x =~= u.skip(decimal(a).len() as int));
    assert(y =~= v.skip(decimal(b).len() as int));
    lemma_decimal_injective(a, b);
}

/// A number that something else than a digit follows marks its own end.
pub proof fn lemma_signed_decodes(a: int, b: int, x: Seq<char>, y: Seq<char>)
    requires
        signed_decimal(a) + x == signed_decimal(b) + y,
        ends_number(x),
        ends_number(y),
    ensures
        a == b,
        x == y,
{
    let u = signed_decimal(a) + x;
    let v = signed_decimal(b) + y;
    let m = if a < 0 {
        (-a) as nat
    } else {
        a as nat
    };
    let n = if b < 0 {
        (-b) as nat
    } else {
        b as nat
    };
    lemma_decimal_digits(m);
    lemma_decimal_digits(n);
    assert(u[0] == signed_decimal(a)[0]);
    assert(v[0] == signed_decimal(b)[0]);
    if a < 0 {
        assert(u[0] == '-');
        if b >= 0 {
            assert(v[0] == decimal(n)[0]);
        }
        assert(u.skip(1) =~= decimal(m) + x);
        assert(v.skip(1) =~= decimal(n) + y);
        lemma_decimal_decodes(m, n, x, y);
    } else {
        assert(u[0] == decimal(m)[0]);
        if b < 0 {
            assert(v[0] == '-');
        }
        lemma_decimal_decodes(m, n, x, y);
    }
}

/// What follows a common beginning is fixed by the whole.
pub proof fn lemma_after_prefix(p: Seq<char>, x: Seq<char>, y: Seq<char>)
    requires
        p + x == p + y,
    ensures
        x == y,
{
    assert(x =~= (p + x).skip(p.len() as int));
    assert(y =~= (p + y).skip(p.len() as int));
}

/// A JSON value of the kinds that the wire formats use. The members of an
/// object are in the order in which they are written.
pub enum Json {
    Text(Seq<char>),
    Number(int),
    Flag(bool),
    Object(Seq<(Seq<char>, Json)>),
}

/// The words that stand for truth values.
pub open spec fn flag_word(b: bool) -> Seq<char> {
    if b {
        seq!['t', 'r', 'u', 'e']
    } else {
        seq!['f', 'a', 'l', 's', 'e']
    }
}

/// The compact text of a JSON value.
pub open spec fn json_of(j: Json) -> Seq<char>
    decreases j,
{
    match j {
        Json::Text(s) => quoted(s),
        Json::Number(n) => signed_decimal(n),
        Json::Flag(b) => flag_word(b),
        Json::Object(f) => seq!['{'] + members_of(f) + seq!['}'],
    }
}

/// The text of the members of an object, separated by commas.
pub open spec fn members_of(f: Seq<(Seq<char>, Json)>) -> Seq<char>
    decreases f,
{
    if f.len() == 0 {
        Seq::empty()
    } else if f.len() == 1 {
        quoted(f[0].0) + seq![':'] + json_of(f[0].1)
    } else {
        quoted(f[0].0) + seq![':'] + json_of(f[0].1) + seq![','] + members_of(f.drop_first())
    }
}

proof fn lemma_members_push(f: Seq<(Seq<char>, Json)>, name: Seq<char>, value: Json)
    ensures
        f.len() == 0 ==> members_of(f.push((name, value))) == quoted(name) + seq![':'] + json_of(
            value,
        ),
        f.len() > 0 ==> members_of(f.push((name, value))) == members_of(f) + seq![','] + quoted(
            name,
        ) + seq![':'] + json_of(value),
    decreases f.len(),
{
    let g = f.push((name, value));
    if f.len() > 0 {
        lemma_members_push(f.drop_first(), name, value);
        assert(g.drop_first() =~= f.drop_first().push((name, value)));
        if f.len() == 1 {
            assert(members_of(g) =~= members_of(f) + seq![','] + quoted(name) + seq![':']
                + json_of(value));
        } else {
            assert(members_of(g) =~= members_of(f) + seq![','] + quoted(name) + seq![':']
                + json_of(value));
        }
    }
}

proof fn lemma_flag_decodes(a: bool, b: bool, x: Seq<char>, y: Seq<char>)
    requires
        flag_word(a) + x == flag_word(b) + y,
    ensures
        a == b,
        x == y,
{
    let u = flag_word(a) + x;
    let v = flag_word(b) + y;
    assert(u[0] == flag_word(a)[0]);
    assert(v[0] == flag_word(b)[0]);
    lemma_after_prefix(flag_word(a), x, y);
}

proof fn lemma_json_first(j: Json, x: Seq<char>)
    ensures
        json_of(j).len() > 0,
        (json_of(j) + x)[0] == json_of(j)[0],
        match j {
            Json::Text(_) => json_of(j)[0] == '"',
            Json::Number(_) => json_of(j)[0] == '-' || is_digit(json_of(j)[0]),
            Json::Flag(_) => json_of(j)[0] == 't' || json_of(j)[0] == 'f',
            Json::Object(_) => json_of(j)[0] == '{',
        },
{
    match j {
        Json::Number(n) => {
            lemma_decimal_digits(
                if n < 0 {
                    (-n) as nat
                } else {
                    n as nat
                },
            );
        },
        _ => {},
    }
}

/// A JSON value marks its own end: what two texts that begin with a value
/// have in common fixes both the value and the rest.
pub proof fn lemma_json_decodes(a: Json, b: Json, x: Seq<char>, y: Seq<char>)
    requires
        json_of(a) + x == json_of(b) + y,
        ends_number(x),
        ends_number(y),
    ensures
        a == b,
        x == y,
    decreases a,
{
    lemma_json_first(a, x);
    lemma_json_first(b, y);
    match (a, b) {
        (Json::Text(s), Json::Text(t)) => lemma_quoted_decodes(s, t, x, y),
        (Json::Number(m), Json::Number(n)) => lemma_signed_decodes(m, n, x, y),
        (Json::Flag(m), Json::Flag(n)) => lemma_flag_decodes(m, n, x, y),
        (Json::Object(f), Json::Object(g)) => {
            let p = members_of(f) + (seq!['}'] + x);
            let q = members_of(g) + (seq!['}'] + y);
            assert(json_of(a) + x =~= seq!['{'] + p);
            assert(json_of(b) + y =~= seq!['{'] + q);
            lemma_after_prefix(seq!['{'], p, q);
            lemma_members_decode(f, g, x, y);
        },
        _ => {},
    }
}

/// What follows the first value of an object whose text `x` follows.
spec fn after_first(f: Seq<(Seq<char>, Json)>, x: Seq<char>) -> Seq<char> {
    if f.len() == 1 {
        seq!['}'] + x
    } else {
        seq![','] + (members_of(f.drop_first()) + (seq!['}'] + x))
    }
}

proof fn lemma_members_split(f: Seq<(Seq<char>, Json)>, x: Seq<char>)
    requires
        f.len() > 0,
    ensures
        members_of(f) + (seq!['}'] + x) == quoted(f[0].0) + (seq![':'] + (json_of(f[0].1)
            + after_first(f, x))),
        ends_number(after_first(f, x)),
{
    let end = seq!['}'] + x;
    let q = quoted(f[0].0);
    let v = json_of(f[0].1);
    if f.len() == 1 {
        assert(q + seq![':'] + v + end =~= q + (seq![':'] + (v + end)));
    } else {
        let m = members_of(f.drop_first());
        assert(q + seq![':'] + v + seq![','] + m + end =~= q + (seq![':'] + (v + (seq![','] + (m
            + end)))));
    }
}

#[verifier::spinoff_prover]
proof fn lemma_members_decode(
    f: Seq<(Seq<char>, Json)>,
    g: Seq<(Seq<char>, Json)>,
    x: Seq<char>,
    y: Seq<char>,
)
    requires
        members_of(f) + (seq!['}'] + x) == members_of(g) + (seq!['}'] + y),
    ensures
        f == g,
        x == y,
    decreases f,
{
    let u = members_of(f) + (seq!['}'] + x);
    let v = members_of(g) + (seq!['}'] + y);
    if f.len() == 0 {
        assert(u[0] == '}');
        if g.len() > 0 {
            assert(v[0] == '"');
        }
        assert(f =~= g);
        assert(x =~= u.skip(1));
        assert(y =~= v.skip(1));
    } else if g.len() == 0 {
        assert(v[0] == '}');
        assert(u[0] == '"');
    } else {
        let tf = after_first(f, x);
        let tg = after_first(g, y);
        lemma_members_split(f, x);
        lemma_members_split(g, y);
        lemma_quoted_decodes(
            f[0].0,
            g[0].0,
            seq![':'] + (json_of(f[0].1) + tf),
            seq![':'] + (json_of(g[0].1) + tg),
        );
        lemma_after_prefix(seq![':'], json_of(f[0].1) + tf, json_of(g[0].1) + tg);
        assert(tf[0] == '}' || tf[0] == ',');
        assert(tg[0] == '}' || tg[0] == ',');
        lemma_json_decodes(f[0].1, g[0].1, tf, tg);
        assert(f[0] == g[0]);
        if f.len() == 1 {
            assert(g.len() == 1);
            assert(f =~= g);
            assert(x =~= tf.skip(1));
            assert(y =~= tg.skip(1));
        } else {
            assert(g.len() > 1);
            let p = members_of(f.drop_first()) + (seq!['}'] + x);
            let q = members_of(g.drop_first()) + (seq!['}'] + y);
            assert(p =~= tf.skip(1));
            assert(q =~= tg.skip(1));
            lemma_members_decode(f.drop_first(), g.drop_first(), x, y);
            assert(f =~= seq![f[0]] + f.drop_first());
            assert(g =~= seq![g[0]] + g.drop_first());
        }
    }
}

/// The text of a JSON object under construction.
pub(crate) struct ObjectText {
    text: String,
    any: bool,
    fields: Ghost<Seq<(Seq<char>, Json)>>,
}

impl ObjectText {
    /// The members written so far.
    pub closed spec fn fields(&self) -> Seq<(Seq<char>, Json)> {
        self.fields@
    }

    pub closed spec fn wf(&self) -> bool {
        &&& self.text@ == members_of(self.fields@)
        &&& self.any == (self.fields@.len() > 0)
    }

    pub(crate) fn new() -> (r: Self)
        ensures
            r.wf(),
            r.fields() == Seq::<(Seq<char>, Json)>::empty(),
    {
        ObjectText { text: String::new(), any: false, fields: Ghost(Seq::empty()) }
    }

    /// Writes a member whose value has the text `value`.
    pub(crate) fn raw(&mut self, name: &str, value: &str, Ghost(json): Ghost<Json>)
        requires
            old(self).wf(),
            value@ == json_of(json),
        ensures
            final(self).wf(),
            final(self).fields() == old(self).fields().push((name@, json)),
    {
        let key = json_string(name);
        proof {
            lemma_members_push(self.fields@, name@, json);
            reveal_strlit(",");
            reveal_strlit(":");
            assert(","@ =~= seq![',']);
            assert(":"@ =~= seq![':']);
        }
        if self.any {
            self.text.append(",");
        }
        let ghost before = self.text@;
        self.text.append(key.as_str());
        self.text.append(":");
        self.text.append(value);
        proof {
            if self.fields@.len() == 0 {
                assert(self.text@ =~= quoted(name@) + seq![':'] + json_of(json));
            }
        }
        self.any = true;
        self.fields = Ghost(self.fields@.push((name@, json)));
    }

    pub(crate) fn string(&mut self, name: &str, value: &str)
        requires
            old(self).wf(),
        ensures
            final(self).wf(),
            final(self).fields() == old(self).fields().push((name@, Json::Text(value@))),
    {
        let t = json_string(value);
        self.raw(name, t.as_str(), Ghost(Json::Text(value@)));
    }

    pub(crate) fn signed(&mut self, name: &str, value: i64)
        requires
            old(self).wf(),
        ensures
            final(self).wf(),
            final(self).fields() == old(self).fields().push((name@, Json::Number(value as int))),
    {
        let t = signed_text(value);
        self.raw(name, t.as_str(), Ghost(Json::Number(value as int)));
    }

    pub(crate) fn unsigned(&mut self, name: &str, value: u64)
        requires
            old(self).wf(),
        ensures
            final(self).wf(),
            final(self).fields() == old(self).fields().push((name@, Json::Number(value as int))),
    {
        let t = decimal_text(value);
        self.raw(name, t.as_str(), Ghost(Json::Number(value as int)));
    }

    pub(crate) fn flag(&mut self, name: &str, value: bool)
        requires
            old(self).wf(),
        ensures
            final(self).wf(),
            final(self).fields() == old(self).fields().push((name@, Json::Flag(value))),
    {
        proof {
            reveal_strlit("true");
            reveal_strlit("false");
            assert("true"@ =~= flag_word(true));
            assert("false"@ =~= flag_word(false));
        }
        if value {
            self.raw(name, "true", Ghost(Json::Flag(value)));
        } else {
            self.raw(name, "false", Ghost(Json::Flag(value)));
        }
    }

    /// The text of the object.
    pub(crate) fn finish(self) -> (r: String)
        requires
            self.wf(),
        ensures
            r@ == json_of(Json::Object(self.fields())),
    {
        let mut r: String = String::new();
        r.append("{");
        r.append(self.text.as_str());
        r.append("}");
        proof {
            reveal_strlit("{");
            reveal_strlit("}");
            assert("{"@ =~= seq!['{']);
            assert("}"@ =~= seq!['}']);
            assert(r@ =~= seq!['{'] + members_of(self.fields@) + seq!['}']);
        }
        r
    }
}

} // verus!
