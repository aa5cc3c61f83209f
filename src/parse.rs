use vstd::prelude::*;
use swc_common::sync::Lrc;
use swc_common::{FileName, SourceFile, SourceMap, Spanned};
use swc_ecma_ast::{EsVersion, Program};
use swc_ecma_parser::error::Error as ParseError;
use swc_ecma_parser::{EsSyntax, Syntax, TsSyntax};
use crate::registry::{registered, OffsetRegistry};

verus! {

#[verifier::external_type_specification]
#[verifier::external_body]
pub struct ExSourceMap(SourceMap);

#[verifier::external_type_specification]
#[verifier::external_body]
pub struct ExSourceFile(SourceFile);

#[verifier::external_type_specification]
#[verifier::external_body]
pub struct ExProgram(Program);

#[verifier::external_type_specification]
pub struct ExEsVersion(EsVersion);

#[verifier::external_type_specification]
#[verifier::external_body]
pub struct ExSyntax(Syntax);

#[verifier::external_type_specification]
#[verifier::external_body]
pub struct ExParseError(ParseError);

/// The text that a source file holds.
pub uninterp spec fn file_text(f: SourceFile) -> Seq<char>;

/// Whether `parse_file_as_module` builds a tree from a text, and how many
/// recoverable errors it reports on the way.
pub uninterp spec fn module_verdict(text: Seq<char>, syntax: Syntax, target: EsVersion) -> (bool, nat);

/// Whether `parse_file_as_script` builds a tree from a text, and how many
/// recoverable errors it reports on the way.
pub uninterp spec fn script_verdict(text: Seq<char>, syntax: Syntax, target: EsVersion) -> (bool, nat);

/// Whether `parse_file_as_program` builds a tree from a text, and how many
/// recoverable errors it reports on the way.
pub uninterp spec fn program_verdict(text: Seq<char>, syntax: Syntax, target: EsVersion) -> (bool, nat);

/// Whether `SyntaxError::msg` returns for the kind of a parse error. It
/// panics on a digit error of a radix other than 2, 8, 10 or 16; the lexer
/// builds digit errors with those four radixes only.
pub uninterp spec fn has_message(e: ParseError) -> bool;

/// The text that `SyntaxError::msg` gives for the kind of a parse error.
pub uninterp spec fn error_text(e: ParseError) -> Seq<char>;

/// The start and end positions of a parse error's span.
pub uninterp spec fn error_bounds(e: ParseError) -> (u32, u32);

/// The grammar for ECMAScript, with or without JSX.
pub uninterp spec fn es_syntax(jsx: bool) -> Syntax;

/// The grammar for TypeScript, with or without TSX.
pub uninterp spec fn ts_syntax(tsx: bool) -> Syntax;

/// `s` without a leading byte-order mark.
pub open spec fn without_bom(s: Seq<char>) -> Seq<char> {
    if s.len() > 0 && s[0] == '\u{feff}' {
        s.drop_first()
    } else {
        s
    }
}

/// Relies on `SourceMap::new_source_file`: adds a file named `name` to the
/// map, placed after the files already there, holding `code` less a leading
/// byte-order mark.
#[verifier::external_body]
fn add_source_file(cm: &SourceMap, name: &str, code: String) -> (r: Lrc<SourceFile>)
    ensures
        file_text(*r) == without_bom(code@),
{
    cm.new_source_file(Lrc::new(FileName::Custom(name.to_owned())), code)
}

/// Relies on the `start_pos` field of `SourceFile`: where the file's text
/// begins in its source map.
#[verifier::external_body]
fn start_offset(fm: &SourceFile) -> (r: u32) {
    fm.start_pos.0
}

/// Relies on `swc_ecma_parser::parse_file_as_module`, which appends the
/// recoverable errors it met to `errors` and keeps those already there.
#[verifier::external_body]
fn grammar_parse_module(
    fm: &SourceFile,
    syntax: Syntax,
    target: EsVersion,
    errors: &mut Vec<ParseError>,
) -> (r: Result<Program, ParseError>)
    ensures
        old(errors)@.is_prefix_of(final(errors)@),
        (r is Ok) == module_verdict(file_text(*fm), syntax, target).0,
        final(errors)@.len() == old(errors)@.len() + module_verdict(file_text(*fm), syntax, target).1,
        forall|i: int| old(errors)@.len() <= i < final(errors)@.len() ==> has_message(#[trigger] final(errors)@[i]),
        r is Err ==> has_message(r->Err_0),
{
    swc_ecma_parser::parse_file_as_module(fm, syntax, target, None, errors).map(Program::Module)
}

/// Relies on `swc_ecma_parser::parse_file_as_script`, which appends the
/// recoverable errors it met to `errors` and keeps those already there.
#[verifier::external_body]
fn grammar_parse_script(
    fm: &SourceFile,
    syntax: Syntax,
    target: EsVersion,
    errors: &mut Vec<ParseError>,
) -> (r: Result<Program, ParseError>)
    ensures
        old(errors)@.is_prefix_of(final(errors)@),
        (r is Ok) == script_verdict(file_text(*fm), syntax, target).0,
        final(errors)@.len() == old(errors)@.len() + script_verdict(file_text(*fm), syntax, target).1,
        forall|i: int| old(errors)@.len() <= i < final(errors)@.len() ==> has_message(#[trigger] final(errors)@[i]),
        r is Err ==> has_message(r->Err_0),
{
    swc_ecma_parser::parse_file_as_script(fm, syntax, target, None, errors).map(Program::Script)
}

/// Relies on `swc_ecma_parser::parse_file_as_program`, which lets the grammar
/// decide between module and script, appends the recoverable errors it met
/// to `errors` and keeps those already there.
#[verifier::external_body]
fn grammar_parse_program(
    fm: &SourceFile,
    syntax: Syntax,
    target: EsVersion,
    errors: &mut Vec<ParseError>,
) -> (r: Result<Program, ParseError>)
    ensures
        old(errors)@.is_prefix_of(final(errors)@),
        (r is Ok) == program_verdict(file_text(*fm), syntax, target).0,
        final(errors)@.len() == old(errors)@.len() + program_verdict(file_text(*fm), syntax, target).1,
        forall|i: int| old(errors)@.len() <= i < final(errors)@.len() ==> has_message(#[trigger] final(errors)@[i]),
        r is Err ==> has_message(r->Err_0),
{
    swc_ecma_parser::parse_file_as_program(fm, syntax, target, None, errors)
}

/// Relies on `SyntaxError::msg`: the text that describes a parse error.
#[verifier::external_body]
fn error_message(e: &ParseError) -> (r: String)
    requires
        has_message(*e),
    ensures
        r@ == error_text(*e),
{
    e.kind().msg().into_owned()
}

/// Relies on `Spanned::span` of a parse error: its start and end positions.
#[verifier::external_body]
fn error_span(e: &ParseError) -> (r: (u32, u32))
    ensures
        r == error_bounds(*e),
{
    let span = e.span();
    (span.lo.0, span.hi.0)
}

/// Relies on `EsSyntax`'s defaults: plain ECMAScript, with JSX when asked.
#[verifier::external_body]
fn ecmascript_syntax(jsx: bool) -> (r: Syntax)
    ensures
        r == es_syntax(jsx),
{
    Syntax::Es(EsSyntax { jsx, ..Default::default() })
}

/// Relies on `TsSyntax`'s defaults: TypeScript, with TSX when asked.
#[verifier::external_body]
fn typescript_syntax(tsx: bool) -> (r: Syntax)
    ensures
        r == ts_syntax(tsx),
{
    Syntax::Typescript(TsSyntax { tsx, ..Default::default() })
}

/// Relies on `EsVersion::latest`: the newest language version swc knows.
#[verifier::external_body]
fn latest_es_version() -> (r: EsVersion)
    ensures
        r == EsVersion::EsNext,
{
    EsVersion::latest()
}

/// Whether a file is parsed as a module, as a script, or as the grammar
/// decides.
#[derive(Clone, Copy, Debug, PartialEq, Eq, Structural)]
pub enum IsModule {
    Bool(bool),
    Unknown,
}

/// The kind of source a module holds, which picks the grammar.
#[derive(Clone, Copy, Debug, PartialEq, Eq, Structural)]
pub enum ModuleType {
    Js,
    Jsx,
    Ts,
    Tsx,
}

/// One parse diagnostic, in the form the host reports: its message, the file and
/// kind of source it came from, and its span.
#[derive(Clone, Debug)]
pub struct Diagnostic {
    pub message: String,
    pub file: String,
    pub module_type: ModuleType,
    pub start: u32,
    pub end: u32,
}

/// A parse that produced no tree, with every diagnostic gathered on the way.
#[derive(Clone, Debug)]
pub enum Error {
    BatchErrors(Vec<Diagnostic>),
}

impl Error {
    pub open spec fn spec_diagnostics(&self) -> Seq<Diagnostic> {
        match self {
            Error::BatchErrors(d) => d@,
        }
    }
}

/// A tree together with the recoverable diagnostics met while building it.
pub struct TWithDiagnosticArray<T> {
    pub inner: T,
    pub diagnostics: Vec<Diagnostic>,
}

/// Every error of `s` has a message: it came from the grammar.
pub open spec fn all_have_message(s: Seq<ParseError>) -> bool {
    forall|i: int| 0 <= i < s.len() ==> has_message(#[trigger] s[i])
}

/// `d` is the diagnostic of grammar error `e`, in file `file` of kind
/// `module_type`.
pub open spec fn diagnostic_of(d: Diagnostic, e: ParseError, file: Seq<char>, module_type: ModuleType) -> bool {
    &&& d.message@ == error_text(e)
    &&& (d.start, d.end) == error_bounds(e)
    &&& d.file@ == file
    &&& d.module_type == module_type
}

/// `ds` are the diagnostics of the errors `es`, one for one, in order.
pub open spec fn diagnostics_of(ds: Seq<Diagnostic>, es: Seq<ParseError>, file: Seq<char>, module_type: ModuleType) -> bool {
    &&& ds.len() == es.len()
    &&& forall|i: int| 0 <= i < ds.len() ==> diagnostic_of(#[trigger] ds[i], es[i], file, module_type)
}

/// The errors that an outcome carries.
pub open spec fn outcome_errors(outcome: Result<(Program, Vec<ParseError>), Vec<ParseError>>) -> Seq<ParseError> {
    match outcome {
        Ok((_, es)) => es@,
        Err(es) => es@,
    }
}

/// The outcome of one parse, from what the grammar returned and the
/// recoverable errors it reported: the tree with those errors, or, when no
/// tree was built, those errors followed by the one that stopped it.
pub open spec fn parse_outcome(
    result: Result<Program, ParseError>,
    recovered: Seq<ParseError>,
) -> Result<(Program, Seq<ParseError>), Seq<ParseError>> {
    match result {
        Ok(program) => Ok((program, recovered)),
        Err(fatal) => Err(recovered.push(fatal)),
    }
}

/// Puts together the outcome of a parse from what the grammar returned and
/// the recoverable errors it reported.
pub fn finish_parse(result: Result<Program, ParseError>, recovered: Vec<ParseError>) -> (r: Result<
    (Program, Vec<ParseError>),
    Vec<ParseError>,
>)
    ensures
        match (r, parse_outcome(result, recovered@)) {
            (Ok((p, errs)), Ok((q, want))) => p == q && errs@ == want,
            (Err(errs), Err(want)) => errs@ == want,
            _ => false,
        },
{
    match result {
        Ok(program) => Ok((program, recovered)),
        Err(err) => {
            let mut errors = recovered;
            errors.push(err);
            Err(errors)
        },
    }
}

/// Recoverable diagnostics do not make a parse fail: when the grammar built a
/// tree, the outcome holds that tree and every recoverable error, however
/// many there are; and a failed outcome always holds at least one error.
pub proof fn lemma_diagnostics_do_not_imply_failure(
    result: Result<Program, ParseError>,
    recovered: Seq<ParseError>,
)
    ensures
        result is Ok ==> parse_outcome(result, recovered) == Ok::<(Program, Seq<ParseError>), Seq<ParseError>>((result->Ok_0, recovered)),
        parse_outcome(result, recovered) is Err ==> parse_outcome(result, recovered)->Err_0.len() >= 1,
{
}

/// What the grammar makes of a text under a hint: whether it builds a tree,
/// and how many recoverable errors it reports.
pub open spec fn grammar_verdict(text: Seq<char>, syntax: Syntax, target: EsVersion, is_module: IsModule) -> (bool, nat) {
    match is_module {
        IsModule::Bool(true) => module_verdict(text, syntax, target),
        IsModule::Bool(false) => script_verdict(text, syntax, target),
        IsModule::Unknown => program_verdict(text, syntax, target),
    }
}

/// Parses `fm` as a module, a script, or as the grammar decides, and returns
/// the tree with the recoverable errors, or every error met when no tree
/// could be built. The errors are the grammar's own: turning them into diagnostics needs
/// the file's name and kind, which the caller has.
/// No comment collector is taken: it would be a `&dyn Comments` trait
/// object, which verified code cannot hold.
pub fn parse_js(fm: &SourceFile, target: EsVersion, syntax: Syntax, is_module: IsModule) -> (r: Result<
    (Program, Vec<ParseError>),
    Vec<ParseError>,
>)
    ensures
        (r is Ok) == grammar_verdict(file_text(*fm), syntax, target, is_module).0,
        r is Ok ==> r->Ok_0.1@.len() == grammar_verdict(file_text(*fm), syntax, target, is_module).1,
        r is Err ==> r->Err_0@.len() == grammar_verdict(file_text(*fm), syntax, target, is_module).1 + 1,
        all_have_message(outcome_errors(r)),
{
    let mut errors: Vec<ParseError> = Vec::new();
    let program_result = match is_module {
        IsModule::Bool(true) => grammar_parse_module(fm, syntax, target, &mut errors),
        IsModule::Bool(false) => grammar_parse_script(fm, syntax, target, &mut errors),
        IsModule::Unknown => grammar_parse_program(fm, syntax, target, &mut errors),
    };
    finish_parse(program_result, errors)
}

/// The grammar for a kind of source.
pub open spec fn syntax_for(module_type: ModuleType) -> Syntax {
    match module_type {
        ModuleType::Js => es_syntax(false),
        ModuleType::Jsx => es_syntax(true),
        ModuleType::Ts => ts_syntax(false),
        ModuleType::Tsx => ts_syntax(true),
    }
}

/// What parsing `text` as a module of the given kind, for the newest
/// language version, comes to: whether a tree is built, and how many
/// recoverable errors are met.
pub open spec fn parse_verdict(text: Seq<char>, module_type: ModuleType) -> (bool, nat) {
    grammar_verdict(without_bom(text), syntax_for(module_type), EsVersion::EsNext, IsModule::Bool(true))
}

/// Parsing is deterministic: the same text and kind of source give the same
/// verdict, so the same success and the same number of diagnostics, from
/// `parse` and from `parse_js_code`.
pub proof fn lemma_parse_deterministic(t1: Seq<char>, t2: Seq<char>, m1: ModuleType, m2: ModuleType)
    requires
        t1 == t2,
        m1 == m2,
    ensures
        parse_verdict(t1, m1) == parse_verdict(t2, m2),
{
}

fn syntax_by_module_type(module_type: ModuleType) -> (r: Syntax)
    ensures
        r == syntax_for(module_type),
{
    match module_type {
        ModuleType::Js => ecmascript_syntax(false),
        ModuleType::Jsx => ecmascript_syntax(true),
        ModuleType::Ts => typescript_syntax(false),
        ModuleType::Tsx => typescript_syntax(true),
    }
}

/// Converts grammar errors into diagnostics of `filename`, one for one, in
/// order.
fn to_diagnostics(errs: &Vec<ParseError>, filename: &str, module_type: ModuleType) -> (r: Vec<Diagnostic>)
    requires
        all_have_message(errs@),
    ensures
        diagnostics_of(r@, errs@, filename@, module_type),
{
    let mut out: Vec<Diagnostic> = Vec::new();
    let mut i: usize = 0;
    while i < errs.len()
        invariant
            i <= errs@.len(),
            out@.len() == i,
            all_have_message(errs@),
            forall|j: int| 0 <= j < i ==> diagnostic_of(#[trigger] out@[j], errs@[j], filename@, module_type),
        decreases errs@.len() - i,
    {
        let (start, end) = error_span(&errs[i]);
        out.push(Diagnostic { message: error_message(&errs[i]), file: filename.to_owned(), module_type, start, end });
        i = i + 1;
    }
    out
}

/// Converts the outcome of a parse of a file of the build: the tree with
/// one diagnostic for each recoverable error, or one diagnostic for each
/// error met when no tree was built.
pub fn build_file_outcome(
    outcome: Result<(Program, Vec<ParseError>), Vec<ParseError>>,
    filename: &str,
    module_type: ModuleType,
) -> (r: Result<TWithDiagnosticArray<Program>, Error>)
    requires
        all_have_message(outcome_errors(outcome)),
    ensures
        match (outcome, r) {
            (Ok((p, errs)), Ok(t)) => t.inner == p && diagnostics_of(t.diagnostics@, errs@, filename@, module_type),
            (Err(errs), Err(e)) => diagnostics_of(e.spec_diagnostics(), errs@, filename@, module_type),
            _ => false,
        },
{
    match outcome {
        Ok((program, errs)) => {
            let diagnostics = to_diagnostics(&errs, filename, module_type);
            Ok(TWithDiagnosticArray { inner: program, diagnostics })
        },
        Err(errs) => Err(Error::BatchErrors(to_diagnostics(&errs, filename, module_type))),
    }
}

/// Converts the outcome of a parse of a snippet: the tree when no error at
/// all was met, else one diagnostic for each error, recoverable or not.
pub fn snippet_outcome(
    outcome: Result<(Program, Vec<ParseError>), Vec<ParseError>>,
    module_type: ModuleType,
) -> (r: Result<Program, Error>)
    requires
        all_have_message(outcome_errors(outcome)),
    ensures
        match (outcome, r) {
            (Ok((p, errs)), Ok(q)) => errs@.len() == 0 && q == p,
            (Ok((p, errs)), Err(e)) => errs@.len() > 0 && diagnostics_of(e.spec_diagnostics(), errs@, ""@, module_type),
            (Err(errs), Err(e)) => diagnostics_of(e.spec_diagnostics(), errs@, ""@, module_type),
            _ => false,
        },
{
    match outcome {
        Ok((program, errs)) => {
            if errs.len() == 0 {
                Ok(program)
            } else {
                Err(Error::BatchErrors(to_diagnostics(&errs, "", module_type)))
            }
        },
        Err(errs) => Err(Error::BatchErrors(to_diagnostics(&errs, "", module_type))),
    }
}

/// Parses a file of the build: adds it to `cm`, records where its text
/// begins in `registry` (a name registered before keeps its first offset),
/// and parses it as a module. The tree comes with every recoverable
/// diagnostic; when no tree could be built, every diagnostic met comes back.
pub fn parse(
    source_code: String,
    filename: &str,
    module_type: &ModuleType,
    cm: &SourceMap,
    registry: &mut OffsetRegistry,
) -> (r: Result<TWithDiagnosticArray<Program>, Error>)
    requires
        old(registry).wf(),
    ensures
        final(registry).wf(),
        exists|o: u32| final(registry)@ == registered(old(registry)@, filename@, o),
        (r is Ok) == parse_verdict(source_code@, *module_type).0,
        match r {
            Ok(t) => exists|es: Seq<ParseError>| es.len() == parse_verdict(source_code@, *module_type).1
                && diagnostics_of(t.diagnostics@, es, filename@, *module_type),
            Err(e) => exists|es: Seq<ParseError>| es.len() == parse_verdict(source_code@, *module_type).1 + 1
                && diagnostics_of(e.spec_diagnostics(), es, filename@, *module_type),
        },
{
    let syntax = syntax_by_module_type(*module_type);
    let fm = add_source_file(cm, filename, source_code);
    registry.register(filename, start_offset(&fm));
    // Files of the build are parsed as modules; a script that leans on
    // sloppy-mode syntax then comes back with diagnostics.
    let outcome = parse_js(&fm, latest_es_version(), syntax, IsModule::Bool(true));
    let ghost errs = outcome_errors(outcome);
    let r = build_file_outcome(outcome, filename, *module_type);
    proof {
        if r is Ok {
            assert(diagnostics_of(r->Ok_0.diagnostics@, errs, filename@, *module_type));
        } else {
            assert(diagnostics_of(r->Err_0.spec_diagnostics(), errs, filename@, *module_type));
        }
    }
    r
}

/// Parses a snippet that is not part of the build: it gets no name and is not
/// registered. Any diagnostic at all, recoverable or not, makes it an error.
pub fn parse_js_code(js_code: String, module_type: &ModuleType, cm: &SourceMap) -> (r: Result<Program, Error>)
    ensures
        (r is Ok) == (parse_verdict(js_code@, *module_type).0 && parse_verdict(js_code@, *module_type).1 == 0),
        r is Err ==> exists|es: Seq<ParseError>| es.len() == parse_verdict(js_code@, *module_type).1
            + if parse_verdict(js_code@, *module_type).0 { 0nat } else { 1nat }
            && diagnostics_of(r->Err_0.spec_diagnostics(), es, ""@, *module_type),
{
    let syntax = syntax_by_module_type(*module_type);
    let fm = add_source_file(cm, "", js_code);
    let outcome = parse_js(&fm, latest_es_version(), syntax, IsModule::Bool(true));
    let ghost errs = outcome_errors(outcome);
    let r = snippet_outcome(outcome, *module_type);
    proof {
        if r is Err {
            assert(diagnostics_of(r->Err_0.spec_diagnostics(), errs, ""@, *module_type));
        }
    }
    r
}

} // verus!
