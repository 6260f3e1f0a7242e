//! Printing values: `"s"`, decimal numbers, `(v, ...)`, `Name { f: v, ... }`, `c(v)`.
use vstd::prelude::*;
use vstd::string::StrSliceExecFns;
use crate::ident::Ident;
use crate::interpret::{Value, ValueV, values_v, field_values_v};

verus! {

/// The decimal digits of `n`, most significant first.
pub open spec fn decimal(n: u64) -> Seq<char>
    decreases n,
{
    if n < 10 {
        seq![digit_char(n)]
    } else {
        decimal(n / 10).push(digit_char(n % 10))
    }
}

/// The character of a decimal digit.
pub open spec fn digit_char(d: u64) -> char {
    (48 + d) as char
}

/// The items joined with `", "`.
pub open spec fn join(items: Seq<Seq<char>>) -> Seq<char>
    decreases items.len(),
{
    if items.len() == 0 {
        Seq::empty()
    } else if items.len() == 1 {
        items[0]
    } else {
        join(items.drop_last()) + ", "@ + items.last()
    }
}

/// How a value prints.
pub open spec fn value_text(v: ValueV) -> Seq<char>
    decreases v,
{
    match v {
        ValueV::String_(s) => seq!['"'] + s + seq!['"'],
        ValueV::Number(n) => decimal(n),
        ValueV::Tuple(vs) => seq!['('] + join(texts(vs)) + seq![')'],
        ValueV::Struct(n, fs) => n + " { "@ + join(field_texts(fs)) + " }"@,
        ValueV::Ctor(c, x) => c + seq!['('] + value_text(*x) + seq![')'],
    }
}

/// How each value prints.
pub open spec fn texts(vs: Seq<ValueV>) -> Seq<Seq<char>>
    decreases vs,
{
    Seq::new(vs.len(), |i: int| if 0 <= i < vs.len() { value_text(vs[i]) } else { Seq::empty() })
}

/// How each field prints: `name: value`.
pub open spec fn field_texts(fs: Seq<(Seq<char>, ValueV)>) -> Seq<Seq<char>>
    decreases fs,
{
    Seq::new(fs.len(), |i: int| if 0 <= i < fs.len() { fs[i].0 + ": "@ + value_text(fs[i].1) } else { Seq::empty() })
}

fn push_all(out: &mut Vec<char>, s: &str)
    ensures
        final(out)@ == old(out)@ + s@,
{
    let ghost o = out@;
    let n = s.unicode_len();
    let mut k: usize = 0;
    while k < n
        invariant
            n == s@.len(),
            k <= n,
            out@ == o + s@.subrange(0, k as int),
        decreases n - k,
    {
        out.push(s.get_char(k));
        assert(s@.subrange(0, k + 1) =~= s@.subrange(0, k as int).push(s@[k as int]));
        k += 1;
    }
    assert(s@.subrange(0, n as int) =~= s@);
}

fn push_decimal(out: &mut Vec<char>, n: u64)
    ensures
        final(out)@ == old(out)@ + decimal(n),
    decreases n,
{
    if n < 10 {
        out.push(char_of_digit(n));
        assert(seq![digit_char(n)] =~= decimal(n));
    } else {
        let ghost o = out@;
        push_decimal(out, n / 10);
        out.push(char_of_digit(n % 10));
        assert(out@ =~= o + decimal(n));
    }
}

fn char_of_digit(d: u64) -> (r: char)
    requires
        d < 10,
    ensures
        r == digit_char(d),
{
    let b: u8 = 48 + d as u8;
    b as char
}

impl Value {
    /// Appends how this value prints.
    pub fn render_into(&self, out: &mut Vec<char>)
        ensures
            final(out)@ == old(out)@ + value_text(self.v()),
        decreases self,
    {
        let ghost o = out@;
        match self {
            Value::String_(s) => {
                out.push('"');
                push_all(out, s.as_str());
                out.push('"');
                assert(out@ =~= o + value_text(self.v()));
            },
            Value::Number(n) => {
                push_decimal(out, *n);
            },
            Value::Tuple(vs) => {
                out.push('(');
                render_values(vs, out);
                out.push(')');
                assert(out@ =~= o + value_text(self.v()));
            },
            Value::Struct(n, fs) => {
                push_all(out, n.0.as_str());
                push_all(out, " { ");
                render_fields(fs, out);
                push_all(out, " }");
                assert(out@ =~= o + value_text(self.v()));
            },
            Value::Ctor(c, x) => {
                push_all(out, c.0.as_str());
                out.push('(');
                x.render_into(out);
                out.push(')');
                assert(out@ =~= o + value_text(self.v()));
            },
        }
    }

    /// How this value prints, as [`value_text`] says.
    pub fn render(&self) -> (r: Vec<char>)
        ensures
            r@ == value_text(self.v()),
    {
        let mut out: Vec<char> = Vec::new();
        self.render_into(&mut out);
        assert(out@ =~= value_text(self.v()));
        out
    }
}

fn render_values(vs: &Vec<Value>, out: &mut Vec<char>)
    ensures
        final(out)@ == old(out)@ + join(texts(values_v(vs@))),
    decreases vs,
{
    let ghost o = out@;
    let ghost items = texts(values_v(vs@));
    let mut k: usize = 0;
    assert(join(items.subrange(0, 0)) =~= Seq::<char>::empty());
    assert(o + Seq::<char>::empty() =~= o);
    while k < vs.len()
        invariant
            k <= vs@.len(),
            items == texts(values_v(vs@)),
            items.len() == vs@.len(),
            out@ == o + join(items.subrange(0, k as int)),
        decreases vs@.len() - k,
    {
        assert(decreases_to!(vs => vs@[k as int]));
        assert(items[k as int] == value_text(vs@[k as int].v()));
        if k > 0 {
            push_all(out, ", ");
        }
        let ghost mid = out@;
        vs[k].render_into(out);
        proof {
            let sub = items.subrange(0, k + 1);
            assert(sub.drop_last() =~= items.subrange(0, k as int));
            assert(sub.last() == items[k as int]);
            if k > 0 {
                assert(out@ =~= o + join(sub));
            } else {
                assert(join(sub) == items[0]);
                assert(out@ =~= o + join(sub));
            }
        }
        k += 1;
    }
    assert(items.subrange(0, vs@.len() as int) =~= items);
}

fn render_fields(fs: &Vec<(Ident, Value)>, out: &mut Vec<char>)
    ensures
        final(out)@ == old(out)@ + join(field_texts(field_values_v(fs@))),
    decreases fs,
{
    let ghost o = out@;
    let ghost items = field_texts(field_values_v(fs@));
    let mut k: usize = 0;
    assert(join(items.subrange(0, 0)) =~= Seq::<char>::empty());
    assert(o + Seq::<char>::empty() =~= o);
    while k < fs.len()
        invariant
            k <= fs@.len(),
            items == field_texts(field_values_v(fs@)),
            items.len() == fs@.len(),
            out@ == o + join(items.subrange(0, k as int)),
        decreases fs@.len() - k,
    {
        assert(decreases_to!(fs => fs@[k as int]));
        assert(decreases_to!(fs@[k as int] => fs@[k as int].1));
        assert(items[k as int] == fs@[k as int].0@ + ": "@ + value_text(fs@[k as int].1.v()));
        if k > 0 {
            push_all(out, ", ");
        }
        let ghost mid = out@;
        push_all(out, fs[k].0.0.as_str());
        push_all(out, ": ");
        fs[k].1.render_into(out);
        proof {
            let sub = items.subrange(0, k + 1);
            assert(sub.drop_last() =~= items.subrange(0, k as int));
            assert(sub.last() == items[k as int]);
            assert(out@ =~= mid + items[k as int]);
            if k > 0 {
                assert(out@ =~= o + join(sub));
            } else {
                assert(join(sub) == items[0]);
                assert(out@ =~= o + join(sub));
            }
        }
        k += 1;
    }
    assert(items.subrange(0, fs@.len() as int) =~= items);
}

} // verus!
