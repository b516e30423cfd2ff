//! Rendering a composed filter operation as human-readable text: an
//! observability hook, never used to drive execution.

use vstd::prelude::*;
use crate::value::Scalar;
use crate::expr::{ExprNode, UnaryOp, BinaryOp, AggOp, CumOp, WindowOp};
use crate::eval::Frame;

verus! {

pub open spec fn digit_char(d: nat) -> Seq<char> {
    if d == 0 {
        "0"@
    } else if d == 1 {
        "1"@
    } else if d == 2 {
        "2"@
    } else if d == 3 {
        "3"@
    } else if d == 4 {
        "4"@
    } else if d == 5 {
        "5"@
    } else if d == 6 {
        "6"@
    } else if d == 7 {
        "7"@
    } else if d == 8 {
        "8"@
    } else {
        "9"@
    }
}

/// The decimal digits of a number.
pub open spec fn dec_str(v: nat) -> Seq<char>
    decreases v,
{
    if v < 10 {
        digit_char(v)
    } else {
        dec_str(v / 10) + digit_char(v % 10)
    }
}

/// The decimal rendering of a signed number.
pub open spec fn int_str(v: int) -> Seq<char> {
    if v < 0 {
        "-"@ + dec_str((-v) as nat)
    } else {
        dec_str(v as nat)
    }
}

fn push_digit(s: &mut String, d: u64)
    requires
        d < 10,
    ensures
        final(s)@ == old(s)@ + digit_char(d as nat),
{
    if d == 0 {
        s.append("0");
    } else if d == 1 {
        s.append("1");
    } else if d == 2 {
        s.append("2");
    } else if d == 3 {
        s.append("3");
    } else if d == 4 {
        s.append("4");
    } else if d == 5 {
        s.append("5");
    } else if d == 6 {
        s.append("6");
    } else if d == 7 {
        s.append("7");
    } else if d == 8 {
        s.append("8");
    } else {
        s.append("9");
    }
}

fn push_dec(s: &mut String, v: u64)
    ensures
        final(s)@ == old(s)@ + dec_str(v as nat),
    decreases v,
{
    if v < 10 {
        push_digit(s, v);
    } else {
        push_dec(s, v / 10);
        push_digit(s, v % 10);
        proof {
            assert(old(s)@ + dec_str((v / 10) as nat) + digit_char((v % 10) as nat) == old(s)@
                + (dec_str((v / 10) as nat) + digit_char((v % 10) as nat)));
        }
    }
}

fn push_int(s: &mut String, v: i64)
    ensures
        final(s)@ == old(s)@ + int_str(v as int),
{
    if v < 0 {
        s.append("-");
        let mag: u64 = if v == i64::MIN {
            9223372036854775808u64
        } else {
            (-v) as u64
        };
        push_dec(s, mag);
        proof {
            assert(old(s)@ + "-"@ + dec_str(mag as nat) == old(s)@ + ("-"@ + dec_str(
                mag as nat,
            )));
        }
    } else {
        push_dec(s, v as u64);
    }
}

/// The textual form of a literal scalar.
pub open spec fn scalar_text(s: Scalar) -> Seq<char> {
    match s {
        Scalar::Int(x) => int_str(x as int),
        Scalar::FloatBits(b) => "float:"@ + dec_str(b as nat),
        Scalar::Text(t) => "\""@ + t@ + "\""@,
        Scalar::Bool(b) => if b {
            "true"@
        } else {
            "false"@
        },
        Scalar::Date(d) => "date:"@ + int_str(d as int),
        Scalar::DateTime(us) => "datetime:"@ + int_str(us as int),
        Scalar::Null => "null"@,
    }
}

pub open spec fn unary_name(op: UnaryOp) -> Seq<char> {
    match op {
        UnaryOp::IsNull => "is_null"@,
        UnaryOp::IsNotNull => "is_not_null"@,
        UnaryOp::Reverse => "reverse"@,
        UnaryOp::ForwardFill => "forward_fill"@,
        UnaryOp::BackwardFill => "backward_fill"@,
    }
}

pub open spec fn binary_sym(op: BinaryOp) -> Seq<char> {
    match op {
        BinaryOp::Eq => " == "@,
        BinaryOp::Neq => " != "@,
        BinaryOp::Gt => " > "@,
        BinaryOp::GtEq => " >= "@,
        BinaryOp::Lt => " < "@,
        BinaryOp::LtEq => " <= "@,
        BinaryOp::And => " & "@,
        BinaryOp::Or => " | "@,
        BinaryOp::Add => " + "@,
        BinaryOp::Subtract => " - "@,
        BinaryOp::Multiply => " * "@,
        BinaryOp::Divide => " / "@,
        BinaryOp::Pow => " ^ "@,
    }
}

pub open spec fn agg_name(op: AggOp) -> Seq<char> {
    match op {
        AggOp::Sum => "sum"@,
        AggOp::Min => "min"@,
        AggOp::Max => "max"@,
        AggOp::Mean => "mean"@,
        AggOp::Median => "median"@,
        AggOp::Var => "var"@,
        AggOp::Std => "std"@,
        AggOp::Quantile(_) => "quantile"@,
        AggOp::Count => "count"@,
        AggOp::NDistinct => "n_distinct"@,
        AggOp::First => "first"@,
        AggOp::Last => "last"@,
        AggOp::All => "all"@,
    }
}

pub open spec fn cum_name(op: CumOp) -> Seq<char> {
    match op {
        CumOp::CumMin => "cum_min"@,
        CumOp::CumMax => "cum_max"@,
        CumOp::CumSum => "cum_sum"@,
    }
}

pub open spec fn window_name(op: WindowOp) -> Seq<char> {
    match op {
        WindowOp::WinMin => "rolling_min"@,
        WindowOp::WinMax => "rolling_max"@,
        WindowOp::WinSum => "rolling_sum"@,
        WindowOp::WinMean => "rolling_mean"@,
    }
}

/// The textual form of an expression tree.
pub open spec fn render(e: ExprNode) -> Seq<char>
    decreases e,
{
    match e {
        ExprNode::Literal(s) => "lit("@ + scalar_text(s) + ")"@,
        ExprNode::Column(name) => "col(\""@ + name@ + "\")"@,
        ExprNode::Unary(op, a) => unary_name(op) + "("@ + render(*a) + ")"@,
        ExprNode::Binary(op, a, b) => "("@ + render(*a) + binary_sym(op) + render(*b) + ")"@,
        ExprNode::Conditional(p, t, o) => "when("@ + render(*p) + ").then("@ + render(*t)
            + ").otherwise("@ + render(*o) + ")"@,
        ExprNode::Aggregate(op, a) => agg_name(op) + "("@ + render(*a) + ")"@,
        ExprNode::Window(op, a, params) => window_name(op) + "("@ + render(*a) + ", size="@
            + dec_str(params.size as nat) + ")"@,
        ExprNode::Cumulative(op, a, rev) => cum_name(op) + "("@ + render(*a) + (if rev {
            ", reversed)"@
        } else {
            ")"@
        }),
        ExprNode::Sort(a, desc) => "sort("@ + render(*a) + (if desc {
            ", descending)"@
        } else {
            ", ascending)"@
        }),
        ExprNode::ArgSort(a, desc) => "arg_sort("@ + render(*a) + (if desc {
            ", descending)"@
        } else {
            ", ascending)"@
        }),
        ExprNode::Distinct(a, stable) => (if stable {
            "unique_stable("@
        } else {
            "unique("@
        }) + render(*a) + ")"@,
        ExprNode::Cast(a, _dt) => "cast("@ + render(*a) + ")"@,
        ExprNode::Alias(a, name) => render(*a) + ".alias(\""@ + name@ + "\")"@,
        ExprNode::Slice(a, offset, length) => "slice("@ + render(*a) + ", "@ + int_str(
            offset as int,
        ) + ", "@ + dec_str(length as nat) + ")"@,
        ExprNode::Head(a, length) => "head("@ + render(*a) + ", "@ + dec_str(length as nat)
            + ")"@,
        ExprNode::Tail(a, length) => "tail("@ + render(*a) + ", "@ + dec_str(length as nat)
            + ")"@,
    }
}

fn render_exec(e: &ExprNode) -> (r: String)
    ensures
        r@ == render(*e),
    decreases e,
{
    let mut s = String::new();
    match e {
        ExprNode::Literal(sc) => {
            s.append("lit(");
            match sc {
                Scalar::Int(x) => push_int(&mut s, *x),
                Scalar::FloatBits(b) => {
                    s.append("float:");
                    push_dec(&mut s, *b);
                },
                Scalar::Text(t) => {
                    s.append("\"");
                    s.append(t.as_str());
                    s.append("\"");
                },
                Scalar::Bool(b) => {
                    if *b {
                        s.append("true");
                    } else {
                        s.append("false");
                    }
                },
                Scalar::Date(d) => {
                    s.append("date:");
                    push_int(&mut s, *d as i64);
                },
                Scalar::DateTime(us) => {
                    s.append("datetime:");
                    push_int(&mut s, *us);
                },
                Scalar::Null => s.append("null"),
            }
            s.append(")");
            proof {
                assert(s@ == "lit("@ + scalar_text(e->Literal_0) + ")"@);
            }
        },
        ExprNode::Column(name) => {
            s.append("col(\"");
            s.append(name.as_str());
            s.append("\")");
        },
        ExprNode::Unary(op, a) => {
            match op {
                UnaryOp::IsNull => s.append("is_null"),
                UnaryOp::IsNotNull => s.append("is_not_null"),
                UnaryOp::Reverse => s.append("reverse"),
                UnaryOp::ForwardFill => s.append("forward_fill"),
                UnaryOp::BackwardFill => s.append("backward_fill"),
            }
            s.append("(");
            let inner = render_exec(a);
            s.append(inner.as_str());
            s.append(")");
        },
        ExprNode::Binary(op, a, b) => {
            s.append("(");
            let left = render_exec(a);
            s.append(left.as_str());
            match op {
                BinaryOp::Eq => s.append(" == "),
                BinaryOp::Neq => s.append(" != "),
                BinaryOp::Gt => s.append(" > "),
                BinaryOp::GtEq => s.append(" >= "),
                BinaryOp::Lt => s.append(" < "),
                BinaryOp::LtEq => s.append(" <= "),
                BinaryOp::And => s.append(" & "),
                BinaryOp::Or => s.append(" | "),
                BinaryOp::Add => s.append(" + "),
                BinaryOp::Subtract => s.append(" - "),
                BinaryOp::Multiply => s.append(" * "),
                BinaryOp::Divide => s.append(" / "),
                BinaryOp::Pow => s.append(" ^ "),
            }
            let right = render_exec(b);
            s.append(right.as_str());
            s.append(")");
        },
        ExprNode::Conditional(p, t, o) => {
            s.append("when(");
            let ps = render_exec(p);
            s.append(ps.as_str());
            s.append(").then(");
            let ts = render_exec(t);
            s.append(ts.as_str());
            s.append(").otherwise(");
            let os = render_exec(o);
            s.append(os.as_str());
            s.append(")");
        },
        ExprNode::Aggregate(op, a) => {
            match op {
                AggOp::Sum => s.append("sum"),
                AggOp::Min => s.append("min"),
                AggOp::Max => s.append("max"),
                AggOp::Mean => s.append("mean"),
                AggOp::Median => s.append("median"),
                AggOp::Var => s.append("var"),
                AggOp::Std => s.append("std"),
                AggOp::Quantile(_) => s.append("quantile"),
                AggOp::Count => s.append("count"),
                AggOp::NDistinct => s.append("n_distinct"),
                AggOp::First => s.append("first"),
                AggOp::Last => s.append("last"),
                AggOp::All => s.append("all"),
            }
            s.append("(");
            let inner = render_exec(a);
            s.append(inner.as_str());
            s.append(")");
        },
        ExprNode::Window(op, a, params) => {
            match op {
                WindowOp::WinMin => s.append("rolling_min"),
                WindowOp::WinMax => s.append("rolling_max"),
                WindowOp::WinSum => s.append("rolling_sum"),
                WindowOp::WinMean => s.append("rolling_mean"),
            }
            s.append("(");
            let inner = render_exec(a);
            s.append(inner.as_str());
            s.append(", size=");
            push_dec(&mut s, params.size as u64);
            s.append(")");
        },
        ExprNode::Cumulative(op, a, rev) => {
            match op {
                CumOp::CumMin => s.append("cum_min"),
                CumOp::CumMax => s.append("cum_max"),
                CumOp::CumSum => s.append("cum_sum"),
            }
            s.append("(");
            let inner = render_exec(a);
            s.append(inner.as_str());
            if *rev {
                s.append(", reversed)");
            } else {
                s.append(")");
            }
        },
        ExprNode::Sort(a, desc) => {
            s.append("sort(");
            let inner = render_exec(a);
            s.append(inner.as_str());
            if *desc {
                s.append(", descending)");
            } else {
                s.append(", ascending)");
            }
        },
        ExprNode::ArgSort(a, desc) => {
            s.append("arg_sort(");
            let inner = render_exec(a);
            s.append(inner.as_str());
            if *desc {
                s.append(", descending)");
            } else {
                s.append(", ascending)");
            }
        },
        ExprNode::Distinct(a, stable) => {
            if *stable {
                s.append("unique_stable(");
            } else {
                s.append("unique(");
            }
            let inner = render_exec(a);
            s.append(inner.as_str());
            s.append(")");
        },
        ExprNode::Cast(a, _dt) => {
            s.append("cast(");
            let inner = render_exec(a);
            s.append(inner.as_str());
            s.append(")");
        },
        ExprNode::Alias(a, name) => {
            let inner = render_exec(a);
            s.append(inner.as_str());
            s.append(".alias(\"");
            s.append(name.as_str());
            s.append("\")");
        },
        ExprNode::Slice(a, offset, length) => {
            s.append("slice(");
            let inner = render_exec(a);
            s.append(inner.as_str());
            s.append(", ");
            push_int(&mut s, *offset);
            s.append(", ");
            push_dec(&mut s, *length as u64);
            s.append(")");
        },
        ExprNode::Head(a, length) => {
            s.append("head(");
            let inner = render_exec(a);
            s.append(inner.as_str());
            s.append(", ");
            push_dec(&mut s, *length as u64);
            s.append(")");
        },
        ExprNode::Tail(a, length) => {
            s.append("tail(");
            let inner = render_exec(a);
            s.append(inner.as_str());
            s.append(", ");
            push_dec(&mut s, *length as u64);
            s.append(")");
        },
    }
    s
}

/// The names of a frame's columns from position `i` on, comma-separated.
pub open spec fn names_text(cols: Seq<(Seq<char>, Seq<crate::value::Value>)>, i: int) -> Seq<
    char,
>
    decreases cols.len() - i,
{
    if i < 0 || i >= cols.len() {
        Seq::empty()
    } else if i == cols.len() - 1 {
        cols[i].0
    } else {
        cols[i].0 + ", "@ + names_text(cols, i + 1)
    }
}

fn names_exec(f: &Frame, j: usize) -> (r: String)
    ensures
        r@ == names_text(f.cols_view(), j as int),
    decreases f.cols@.len() - j,
{
    if j >= f.cols.len() {
        String::new()
    } else if j == f.cols.len() - 1 {
        f.cols[j].name.clone()
    } else {
        let mut s = f.cols[j].name.clone();
        s.append(", ");
        let rest = names_exec(f, j + 1);
        s.append(rest.as_str());
        proof {
            assert(s@ == f.cols_view()[j as int].0 + ", "@ + names_text(
                f.cols_view(),
                j as int + 1,
            ));
        }
        s
    }
}

/// The textual plan of filtering a frame by a predicate tree.
pub open spec fn plan_text(f: Frame, e: ExprNode) -> Seq<char> {
    "FILTER "@ + render(e) + " FROM df["@ + names_text(f.cols_view(), 0) + "]"@
}

/// Composes a row filter restricted to rows where the predicate is true
/// and renders the resulting computation plan as text.
pub fn expr_describe_filter_plan(data: &Frame, expr: &ExprNode) -> (r: String)
    ensures
        r@ == plan_text(*data, *expr),
{
    let mut s = String::new();
    s.append("FILTER ");
    let rendered = render_exec(expr);
    s.append(rendered.as_str());
    s.append(" FROM df[");
    let names = names_exec(data, 0);
    s.append(names.as_str());
    s.append("]");
    proof {
        assert(s@ == "FILTER "@ + render(*expr) + " FROM df["@ + names_text(
            data.cols_view(),
            0,
        ) + "]"@);
    }
    s
}

} // verus!
