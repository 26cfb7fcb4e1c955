//! Typed inputs. A prompt answer is a tagged scalar (`Input`); a templated
//! input is a string that, after the two expansion passes, must parse as
//! its declared scalar type.

use vstd::prelude::*;
use vstd::string::*;

use crate::errors::Error;
use crate::globals::Global;
use crate::prompt::PromptCollection;
use crate::prompt::PromptResponses;
use crate::prompt::response_pairs;
use crate::template::expand_spec;
use crate::template::pairs_view;
use crate::text::dec_digits;
use crate::text::dec_digits_signed;
use crate::text::i64_to_string;
use crate::text::parse_bool_spec;
use crate::text::parse_i64_spec;
use crate::text::parse_unsigned_spec;
use crate::text::u64_to_string;

verus! {

/// The four scalar types a prompt can ask for.
#[derive(Debug, Clone, Copy, PartialEq, Eq)]
pub enum InputType {
    Integer,
    SignedInteger,
    String,
    Boolean,
}

/// A tagged scalar value answering a prompt.
#[derive(Debug, Clone, PartialEq, Eq)]
pub enum Input {
    Integer(u64),
    SignedInteger(i64),
    String(String),
    Boolean(bool),
}

/// The text form of an input value, as it is substituted into templates.
pub open spec fn input_chars(i: Input) -> Seq<char> {
    match i {
        Input::Integer(x) => dec_digits(x as nat),
        Input::SignedInteger(x) => dec_digits_signed(x as int),
        Input::String(s) => s@,
        Input::Boolean(b) => if b {
            "true"@
        } else {
            "false"@
        },
    }
}

impl Input {
    /// Renders the value as the text substituted for its template key.
    pub fn to_string(&self) -> (r: String)
        ensures
            r@ == input_chars(*self),
    {
        match self {
            Input::Integer(x) => u64_to_string(*x),
            Input::SignedInteger(x) => i64_to_string(*x),
            Input::String(s) => s.clone(),
            Input::Boolean(b) => {
                if *b {
                    String::from_str("true")
                } else {
                    String::from_str("false")
                }
            },
        }
    }
}

/// A named choice offered to the user, carrying its typed value.
#[derive(Debug, Clone, PartialEq, Eq)]
pub struct SelectOption {
    pub name: String,
    pub value: Input,
}

/// A string that expands through both template passes and then parses as a
/// declared scalar type.
#[derive(Debug, Clone, PartialEq, Eq)]
pub struct TemplatedInput {
    pub input: String,
}

/// What the two expansion passes yield for a templated string: the first
/// pass substitutes host variables at `@`, the second prompt responses at
/// `?`; the first missing key fails the whole expansion.
pub open spec fn two_pass_spec(
    s: Seq<char>,
    gpairs: Seq<(Seq<char>, Seq<char>)>,
    rpairs: Seq<(Seq<char>, Seq<char>)>,
) -> Result<Seq<char>, Seq<char>> {
    match expand_spec(s, '@', gpairs) {
        Ok(t) => expand_spec(t, '?', rpairs),
        Err(k) => Err(k),
    }
}

impl TemplatedInput {
    /// Wraps a raw template string.
    pub fn new(s: &str) -> (r: Self)
        ensures
            r.input@ == s@,
    {
        TemplatedInput { input: String::from_str(s) }
    }

    /// A copy of this templated input.
    pub fn duplicate(&self) -> (r: Self)
        ensures
            r.input@ == self.input@,
    {
        TemplatedInput { input: self.input.clone() }
    }

    /// Runs both expansion passes over the raw string.
    pub fn expanded(
        &self,
        globals: &Global,
        prompts: &PromptCollection,
        responses: &PromptResponses,
    ) -> (r: Result<String, Error>)
        ensures
            match r {
                Ok(o) => two_pass_spec(
                    self.input@,
                    pairs_view(globals.variables@),
                    response_pairs(responses.0@),
                ) == Ok::<Seq<char>, Seq<char>>(o@),
                Err(e) => e matches Error::NoMatch(k) && two_pass_spec(
                    self.input@,
                    pairs_view(globals.variables@),
                    response_pairs(responses.0@),
                ) == Err::<Seq<char>, Seq<char>>(k@),
            },
    {
        let first = match globals.template(self.input.as_str()) {
            Ok(x) => x,
            Err(e) => {
                return Err(e);
            },
        };
        let parser = crate::prompt::PromptParser(prompts.duplicate());
        parser.template(first, responses)
    }

    /// Expands and coerces to a string; prompts take part in expansion only.
    pub fn output_string(
        &self,
        globals: &Global,
        prompts: &PromptCollection,
        responses: &PromptResponses,
    ) -> (r: Result<String, Error>)
        ensures
            match r {
                Ok(o) => two_pass_spec(
                    self.input@,
                    pairs_view(globals.variables@),
                    response_pairs(responses.0@),
                ) == Ok::<Seq<char>, Seq<char>>(o@),
                Err(e) => two_pass_spec(
                    self.input@,
                    pairs_view(globals.variables@),
                    response_pairs(responses.0@),
                ) is Err,
            },
    {
        self.expanded(globals, prompts, responses)
    }

    /// Expands and coerces to an unsigned 64-bit value.
    pub fn output_u64(
        &self,
        globals: &Global,
        prompts: &PromptCollection,
        responses: &PromptResponses,
    ) -> (r: Result<u64, Error>)
        ensures
            match r {
                Ok(v) => ({
                    &&& two_pass_spec(
                        self.input@,
                        pairs_view(globals.variables@),
                        response_pairs(responses.0@),
                    ) matches Ok(o)
                    &&& parse_unsigned_spec(o, u64::MAX as nat) == Some(v as nat)
                }),
                Err(e) => match two_pass_spec(
                    self.input@,
                    pairs_view(globals.variables@),
                    response_pairs(responses.0@),
                ) {
                    Ok(o) => parse_unsigned_spec(o, u64::MAX as nat) is None,
                    Err(k) => true,
                },
            },
    {
        let o = self.expanded(globals, prompts, responses)?;
        match crate::text::parse_u64(o.as_str()) {
            Some(v) => Ok(v),
            None => Err(Error::Coerce(o)),
        }
    }

    /// Expands and coerces to an unsigned 16-bit value (a port number).
    pub fn output_u16(
        &self,
        globals: &Global,
        prompts: &PromptCollection,
        responses: &PromptResponses,
    ) -> (r: Result<u16, Error>)
        ensures
            match r {
                Ok(v) => ({
                    &&& two_pass_spec(
                        self.input@,
                        pairs_view(globals.variables@),
                        response_pairs(responses.0@),
                    ) matches Ok(o)
                    &&& parse_unsigned_spec(o, u16::MAX as nat) == Some(v as nat)
                }),
                Err(e) => match two_pass_spec(
                    self.input@,
                    pairs_view(globals.variables@),
                    response_pairs(responses.0@),
                ) {
                    Ok(o) => parse_unsigned_spec(o, u16::MAX as nat) is None,
                    Err(k) => true,
                },
            },
    {
        let o = self.expanded(globals, prompts, responses)?;
        match crate::text::parse_u16(o.as_str()) {
            Some(v) => Ok(v),
            None => Err(Error::Coerce(o)),
        }
    }

    /// Expands and coerces to a signed 64-bit value.
    pub fn output_i64(
        &self,
        globals: &Global,
        prompts: &PromptCollection,
        responses: &PromptResponses,
    ) -> (r: Result<i64, Error>)
        ensures
            match r {
                Ok(v) => ({
                    &&& two_pass_spec(
                        self.input@,
                        pairs_view(globals.variables@),
                        response_pairs(responses.0@),
                    ) matches Ok(o)
                    &&& parse_i64_spec(o) == Some(v)
                }),
                Err(e) => match two_pass_spec(
                    self.input@,
                    pairs_view(globals.variables@),
                    response_pairs(responses.0@),
                ) {
                    Ok(o) => parse_i64_spec(o) is None,
                    Err(k) => true,
                },
            },
    {
        let o = self.expanded(globals, prompts, responses)?;
        match crate::text::parse_i64(o.as_str()) {
            Some(v) => Ok(v),
            None => Err(Error::Coerce(o)),
        }
    }

    /// Expands and coerces to a boolean.
    pub fn output_bool(
        &self,
        globals: &Global,
        prompts: &PromptCollection,
        responses: &PromptResponses,
    ) -> (r: Result<bool, Error>)
        ensures
            match r {
                Ok(v) => ({
                    &&& two_pass_spec(
                        self.input@,
                        pairs_view(globals.variables@),
                        response_pairs(responses.0@),
                    ) matches Ok(o)
                    &&& parse_bool_spec(o) == Some(v)
                }),
                Err(e) => match two_pass_spec(
                    self.input@,
                    pairs_view(globals.variables@),
                    response_pairs(responses.0@),
                ) {
                    Ok(o) => parse_bool_spec(o) is None,
                    Err(k) => true,
                },
            },
    {
        let o = self.expanded(globals, prompts, responses)?;
        match crate::text::parse_bool(o.as_str()) {
            Some(v) => Ok(v),
            None => Err(Error::Coerce(o)),
        }
    }
}

impl Default for TemplatedInput {
    /// The default templated input is the empty string.
    fn default() -> (r: Self)
        ensures
            r.input@ == Seq::<char>::empty(),
    {
        TemplatedInput { input: String::new() }
    }
}

} // verus!
