//! A whole conversion: from the options to the text that answers them.

use vstd::prelude::*;
use vstd::string::StringExecFns;
use crate::base::{digits_message, parse, render, Value};
use crate::errors::BaseError;
use crate::opts::{Base, Opt, ALL_BASES};

verus! {

/// The line that shows `v` in one base: the short label of the base, a colon
/// and a space, the numeral, and ` *` behind it where the base is the input
/// base.
pub open spec fn base_line(v: nat, base: Base, input: Base) -> Seq<char> {
    base.label() + ": "@ + render(v, base) + (if base == input {
        " *"@
    } else {
        ""@
    }) + "\n"@
}

/// The lines that show `v` in each of `bases`, in their order.
pub open spec fn base_lines(bases: Seq<Base>, v: nat, input: Base) -> Seq<char>
    decreases bases.len(),
{
    if bases.len() == 0 {
        Seq::empty()
    } else {
        base_lines(bases.drop_last(), v, input) + base_line(v, bases.last(), input)
    }
}

/// The text that answers the options: the value in the output base and a
/// line end, or, where no output base is named, a line for each base; or the
/// message of the error where no input base is found or the value is no
/// numeral of it.
pub open spec fn convert(opt: Opt) -> Result<Seq<char>, Seq<char>> {
    match opt.input_base() {
        Err(message) => Err(message),
        Ok(input) => match parse(opt.value@, input) {
            None => Err(digits_message(input)),
            Some(v) => match opt.output_base() {
                Some(base) => Ok(render(v, base) + "\n"@),
                None => Ok(base_lines(ALL_BASES@, v, input)),
            },
        },
    }
}

/// Formats a number in all supported bases.
///
/// The input base is marked with an asterisk (*) for easy identification.
pub fn format_all_bases(num: &Value, input_base: Base) -> (output: String)
    ensures
        output@ == base_lines(ALL_BASES@, num@, input_base),
{
    let mut output = String::new();
    let mut i: usize = 0;
    while i < ALL_BASES.len()
        invariant
            i <= ALL_BASES@.len(),
            output@ == base_lines(ALL_BASES@.take(i as int), num@, input_base),
        decreases ALL_BASES@.len() - i,
    {
        let base = ALL_BASES[i];
        let marker = if base == input_base {
            " *"
        } else {
            ""
        };
        let ghost before = output@;
        output.append(base.short_label());
        output.append(": ");
        output.append(num.to_base(base).as_str());
        output.append(marker);
        output.append("\n");
        proof {
            let shown = ALL_BASES@.take(i + 1);
            assert(shown.drop_last() =~= ALL_BASES@.take(i as int));
            assert(shown.last() == base);
            assert(output@ == before + base_line(num@, base, input_base));
        }
        i = i + 1;
    }
    proof {
        assert(ALL_BASES@.take(i as int) =~= ALL_BASES@);
    }
    output
}

/// Performs the base conversion that the options ask for.
///
/// Returns the formatted output string, or an error if parsing fails.
pub fn convert_base(opt: &Opt) -> (result: Result<String, BaseError>)
    ensures
        match result {
            Ok(output) => convert(*opt) == Ok::<Seq<char>, Seq<char>>(output@),
            Err(e) => convert(*opt) == Err::<Seq<char>, Seq<char>>(e@),
        },
{
    let input = match opt.get_input() {
        Ok(base) => base,
        Err(e) => {
            return Err(e);
        },
    };
    let output = opt.get_output();
    let num = match Value::from(opt.value.clone(), input) {
        Ok(num) => num,
        Err(e) => {
            return Err(e);
        },
    };
    match output {
        Some(base) => {
            let mut text = num.to_base(base);
            text.append("\n");
            Ok(text)
        },
        None => Ok(format_all_bases(&num, input)),
    }
}

} // verus!
