//! The four supported bases and the options that select among them.

use vstd::prelude::*;
use crate::base::{detect, detect_base};
use crate::errors::BaseError;

verus! {

/// Supported numeric bases for conversion.
#[derive(Debug, Clone, Copy, PartialEq, Eq, Structural)]
pub enum Base {
    /// Binary (base 2)
    Bin,
    /// Octal (base 8)
    Oct,
    /// Decimal (base 10)
    Dec,
    /// Hexadecimal (base 16)
    Hex,
}

/// All supported bases in display order (binary, octal, decimal, hex).
pub const ALL_BASES: [Base; 4] = [Base::Bin, Base::Oct, Base::Dec, Base::Hex];

impl Base {
    /// The radix of the base: 2, 8, 10 or 16.
    pub open spec fn radix_of(self) -> nat {
        match self {
            Base::Bin => 2,
            Base::Oct => 8,
            Base::Dec => 10,
            Base::Hex => 16,
        }
    }

    /// The full name of the base.
    pub open spec fn name(self) -> Seq<char> {
        match self {
            Base::Bin => "Binary"@,
            Base::Oct => "Octal"@,
            Base::Dec => "Decimal"@,
            Base::Hex => "Hexadecimal"@,
        }
    }

    /// The short label of the base.
    pub open spec fn label(self) -> Seq<char> {
        match self {
            Base::Bin => "bin"@,
            Base::Oct => "oct"@,
            Base::Dec => "dec"@,
            Base::Hex => "hex"@,
        }
    }

    /// Returns the radix of the base.
    pub fn radix(&self) -> (r: u32)
        ensures
            r == self.radix_of(),
    {
        match *self {
            Base::Bin => 2,
            Base::Oct => 8,
            Base::Dec => 10,
            Base::Hex => 16,
        }
    }

    /// Returns the full name of the base (e.g., "Hexadecimal").
    pub fn repr(&self) -> (text: String)
        ensures
            text@ == self.name(),
    {
        match *self {
            Base::Bin => "Binary".to_string(),
            Base::Oct => "Octal".to_string(),
            Base::Dec => "Decimal".to_string(),
            Base::Hex => "Hexadecimal".to_string(),
        }
    }

    /// Returns the short label for display (e.g., "hex").
    pub fn short_label(&self) -> (text: &'static str)
        ensures
            text@ == self.label(),
    {
        match *self {
            Base::Bin => "bin",
            Base::Oct => "oct",
            Base::Dec => "dec",
            Base::Hex => "hex",
        }
    }
}

/// Command-line options for changebase.
///
/// Supports multiple ways to specify input/output bases:
/// - Long flags: `--input dec --output hex`
/// - Short flags: `-i dec -o hex`
/// - Shorthand flags: `--id --oh`
#[derive(Debug)]
pub struct Opt {
    /// Input base to use. If not given, attempts to auto-detect.
    pub input: Option<Base>,
    /// Output base to use. If not given, shows all bases.
    pub output: Option<Base>,
    /// The value to convert
    pub value: String,
    /// The shorthand flags, one for each base as input and as output
    pub short_base_opts: ShortBaseOpts,
    /// Enable verbose output showing conversion details
    pub verbose: bool,
}

/// The shorthand flags: one for each base as input, one for each as output.
#[derive(Clone, Copy, Debug)]
pub struct ShortBaseOpts {
    /// use binary as input base
    pub binary_input: bool,
    /// use octal as input base
    pub octal_input: bool,
    /// use decimal as input base
    pub decimal_input: bool,
    /// use hex as input base
    pub hex_input: bool,
    /// use binary as output base
    pub binary_output: bool,
    /// use octal as output base
    pub octal_output: bool,
    /// use decimal as output base
    pub decimal_output: bool,
    /// use hex as output base
    pub hex_output: bool,
}

impl ShortBaseOpts {
    /// The input base that the shorthand flags name: that of the first flag
    /// set, in the order binary, octal, decimal, hexadecimal.
    pub open spec fn input(self) -> Option<Base> {
        if self.binary_input {
            Some(Base::Bin)
        } else if self.octal_input {
            Some(Base::Oct)
        } else if self.decimal_input {
            Some(Base::Dec)
        } else if self.hex_input {
            Some(Base::Hex)
        } else {
            None
        }
    }

    /// The output base that the shorthand flags name: that of the first flag
    /// set, in the order binary, octal, decimal, hexadecimal.
    pub open spec fn output(self) -> Option<Base> {
        if self.binary_output {
            Some(Base::Bin)
        } else if self.octal_output {
            Some(Base::Oct)
        } else if self.decimal_output {
            Some(Base::Dec)
        } else if self.hex_output {
            Some(Base::Hex)
        } else {
            None
        }
    }
}

impl Clone for Opt {
    /// Returns options equal to these.
    fn clone(&self) -> (copy: Opt)
        ensures
            copy == *self,
    {
        Opt {
            input: self.input,
            output: self.output,
            value: self.value.clone(),
            short_base_opts: self.short_base_opts,
            verbose: self.verbose,
        }
    }
}

impl Opt {
    /// The input base that the options name: the explicit one, else that of
    /// the shorthand flags.
    pub open spec fn named_input(self) -> Option<Base> {
        if self.input is Some {
            self.input
        } else {
            self.short_base_opts.input()
        }
    }

    /// The input base of the conversion: the one that the options name, else
    /// the one detected in the value; or the message of the error where none
    /// is named and none is detected.
    pub open spec fn input_base(self) -> Result<Base, Seq<char>> {
        match self.named_input() {
            Some(base) => Ok(base),
            None => detect(self.value@),
        }
    }

    /// The output base that the options name: the explicit one, else that of
    /// the shorthand flags, else none, which asks for all bases.
    pub open spec fn output_base(self) -> Option<Base> {
        if self.output is Some {
            self.output
        } else {
            self.short_base_opts.output()
        }
    }

    /// Determines the input base that the options name, without looking at
    /// the value.
    ///
    /// Priority order:
    /// 1. Explicit `--input` / `-i` flag
    /// 2. Shorthand flags (`--ib`, `--io`, `--id`, `--ih`)
    pub fn explicit_input(&self) -> (named: Option<Base>)
        ensures
            named == self.named_input(),
    {
        if let Some(base) = self.input {
            Some(base)
        } else if self.short_base_opts.binary_input {
            Some(Base::Bin)
        } else if self.short_base_opts.octal_input {
            Some(Base::Oct)
        } else if self.short_base_opts.decimal_input {
            Some(Base::Dec)
        } else if self.short_base_opts.hex_input {
            Some(Base::Hex)
        } else {
            None
        }
    }

    /// Determines the input base from CLI arguments or auto-detection.
    ///
    /// Priority order:
    /// 1. Explicit `--input` / `-i` flag
    /// 2. Shorthand flags (`--ib`, `--io`, `--id`, `--ih`)
    /// 3. Auto-detection from value content/prefix
    pub fn get_input(&self) -> (result: Result<Base, BaseError>)
        ensures
            match result {
                Ok(base) => self.input_base() == Ok::<Base, Seq<char>>(base),
                Err(e) => self.input_base() == Err::<Base, Seq<char>>(e@),
            },
    {
        match self.explicit_input() {
            Some(base) => Ok(base),
            None => detect_base(self.value.as_str()),
        }
    }

    /// Determines the output base from CLI arguments.
    ///
    /// Returns `None` if no output base specified, indicating all bases
    /// should be displayed.
    ///
    /// Priority order:
    /// 1. Explicit `--output` / `-o` flag
    /// 2. Shorthand flags (`--ob`, `--oo`, `--od`, `--oh`)
    /// 3. `None` (show all bases)
    pub fn get_output(&self) -> (named: Option<Base>)
        ensures
            named == self.output_base(),
    {
        if let Some(base) = self.output {
            Some(base)
        } else if self.short_base_opts.binary_output {
            Some(Base::Bin)
        } else if self.short_base_opts.octal_output {
            Some(Base::Oct)
        } else if self.short_base_opts.decimal_output {
            Some(Base::Dec)
        } else if self.short_base_opts.hex_output {
            Some(Base::Hex)
        } else {
            None  // Show all bases
        }
    }
}

} // verus!
