//! The rule compiler: checks that rule source is structurally sound and
//! expands it into a self-contained executable unit.

use vstd::prelude::*;
use vstd::string::*;
use crate::text::{
    chars_of, contains, contains_text, count_char, count_occurrences, decimal, decimal_string,
    is_blank, is_blank_text, occurs_at,
};

verus! {

/// The rule-builder primitives and the unit-local rule registry that every
/// executable unit starts with.
pub const RUNTIME_JS: &'static str = "\n// Policy Hub Runtime - when/then DSL\nvar __PolicyHub = {\n    rules: [],\n    \n    // Create a new rule builder\n    rule: function(name) {\n        return {\n            name: name,\n            condition: null,\n            action: null,\n            \n            when: function(conditionFn) {\n                this.condition = conditionFn;\n                return this;\n            },\n            \n            then: function(actionFn) {\n                this.action = actionFn;\n                __PolicyHub.rules.push({\n                    name: this.name,\n                    condition: this.condition,\n                    action: this.action\n                });\n                return this;\n            }\n        };\n    },\n    \n    // Execute all registered rules\n    execute: function(facts, metadata) {\n        var results = [];\n        for (var i = 0; i < this.rules.length; i++) {\n            var rule = this.rules[i];\n            try {\n                var conditionMet = rule.condition(facts, metadata);\n                if (conditionMet) {\n                    var output = rule.action(facts, metadata);\n                    results.push({\n                        rule: rule.name,\n                        conditionMet: true,\n                        output: output\n                    });\n                } else {\n                    results.push({\n                        rule: rule.name,\n                        conditionMet: false,\n                        output: null\n                    });\n                }\n            } catch (e) {\n                results.push({\n                    rule: rule.name,\n                    error: e.toString()\n                });\n            }\n        }\n        return results;\n    },\n    \n    // Reset rules (for reuse)\n    reset: function() {\n        this.rules = [];\n    }\n};\n\n// Expose rule function globally\nfunction rule(name) {\n    return __PolicyHub.rule(name);\n}\n\n// Expose when/then for standalone usage\nfunction when(conditionFn) {\n    return {\n        then: function(actionFn) {\n            return {\n                condition: conditionFn,\n                action: actionFn,\n                evaluate: function(facts, metadata) {\n                    var conditionMet = conditionFn(facts, metadata);\n                    if (conditionMet) {\n                        return {\n                            conditionMet: true,\n                            output: actionFn(facts, metadata)\n                        };\n                    }\n                    return { conditionMet: false, output: null };\n                }\n            };\n        }\n    };\n}\n";

/// Opens an executable unit, ahead of the runtime.
pub const UNIT_HEADER: &'static str = "\n// === Policy Hub Runtime ===\n";

/// Separates the runtime from the rule source.
pub const UNIT_SOURCE_HEADER: &'static str = "\n\n// === User Rule Definition ===\n";

/// Closes an executable unit: the entry point that takes the facts and the
/// metadata as JSON text and returns the ordered result list as JSON text.
pub const UNIT_ENTRY_POINT: &'static str = "\n\n// === Execution Entry Point ===\nfunction __execute(factsJson, metadataJson) {\n    var facts = JSON.parse(factsJson);\n    var metadata = JSON.parse(metadataJson);\n    var results = __PolicyHub.execute(facts, metadata);\n    return JSON.stringify(results);\n}\n";


/// Why rule source was turned down.
#[derive(Debug)]
pub enum CompilerError {
    SyntaxError(String),
    CompilationFailed(String),
    InvalidRuleStructure(String),
    IoError(String),
}

impl CompilerError {
    /// The detail carried by the error, without the prefix that names its kind.
    pub open spec fn detail(self) -> Seq<char> {
        match self {
            CompilerError::SyntaxError(m) => m@,
            CompilerError::CompilationFailed(m) => m@,
            CompilerError::InvalidRuleStructure(m) => m@,
            CompilerError::IoError(m) => m@,
        }
    }

    /// The prefix that names the error's kind in its rendered form.
    pub open spec fn prefix(self) -> Seq<char> {
        match self {
            CompilerError::SyntaxError(_) => "Syntax error: "@,
            CompilerError::CompilationFailed(_) => "Compilation failed: "@,
            CompilerError::InvalidRuleStructure(_) => "Invalid rule structure: "@,
            CompilerError::IoError(_) => "IO error: "@,
        }
    }

    /// The error as one line of text: its kind, then its detail.
    pub fn to_string(&self) -> (s: String)
        ensures
            s@ == self.prefix() + self.detail(),
    {
        match self {
            CompilerError::SyntaxError(m) => String::from_str("Syntax error: ").concat(m.as_str()),
            CompilerError::CompilationFailed(m) => String::from_str("Compilation failed: ").concat(
                m.as_str(),
            ),
            CompilerError::InvalidRuleStructure(m) => String::from_str(
                "Invalid rule structure: ",
            ).concat(m.as_str()),
            CompilerError::IoError(m) => String::from_str("IO error: ").concat(m.as_str()),
        }
    }
}

/// The structural defect found first in a rule source, if any.
pub enum StructuralFault {
    /// Nothing but white space.
    Blank,
    /// The counts of `{` and `}` differ.
    UnbalancedBraces { open: nat, close: nat },
    /// The counts of `(` and `)` differ.
    UnbalancedParentheses { open: nat, close: nat },
    /// The counts agree, but a closing delimiter stands where the
    /// innermost open one is of the other kind, or where none is open.
    CrossedDelimiters { braces: nat, parentheses: nat },
    /// Neither `rule` nor `when` occurs.
    MissingKeyword,
}

/// Whether the source names a rule declaration or a condition.
pub open spec fn has_rule_keyword(source: Seq<char>) -> bool {
    contains_text(source, "when"@) || contains_text(source, "rule"@)
}

/// The delimiter that `closer` closes.
pub open spec fn opener_of(closer: char) -> char {
    if closer == '}' {
        '{'
    } else {
        '('
    }
}

/// The delimiters left open after `source`, the innermost last; nothing
/// where some closing delimiter stands while none is open, or while the
/// innermost open one is of the other kind.
pub open spec fn open_delimiters(source: Seq<char>) -> Option<Seq<char>>
    decreases source.len(),
{
    if source.len() == 0 {
        Some(Seq::empty())
    } else {
        let c = source.last();
        match open_delimiters(source.drop_last()) {
            None => None,
            Some(open) => if c == '{' || c == '(' {
                Some(open.push(c))
            } else if c == '}' || c == ')' {
                if open.len() > 0 && open.last() == opener_of(c) {
                    Some(open.drop_last())
                } else {
                    None
                }
            } else {
                Some(open)
            },
        }
    }
}

/// Whether braces and parentheses nest: every closing delimiter closes the
/// innermost open one, which is of its kind, and none is left open.
pub open spec fn well_nested(source: Seq<char>) -> bool {
    open_delimiters(source) matches Some(open) && open.len() == 0
}

/// The first structural defect of `source`, checked in a fixed order:
/// blank, braces, parentheses, nesting, keywords. Source whose delimiters
/// do not nest is never without a fault: where the counts of a kind differ
/// the fault names the kind, else it is the crossing.
pub open spec fn structural_fault(source: Seq<char>) -> Option<StructuralFault> {
    let open_braces = count_char(source, '{');
    let close_braces = count_char(source, '}');
    let open_parens = count_char(source, '(');
    let close_parens = count_char(source, ')');
    if is_blank(source) {
        Some(StructuralFault::Blank)
    } else if open_braces != close_braces {
        Some(StructuralFault::UnbalancedBraces { open: open_braces, close: close_braces })
    } else if open_parens != close_parens {
        Some(StructuralFault::UnbalancedParentheses { open: open_parens, close: close_parens })
    } else if !well_nested(source) {
        Some(StructuralFault::CrossedDelimiters { braces: open_braces, parentheses: open_parens })
    } else if !has_rule_keyword(source) {
        Some(StructuralFault::MissingKeyword)
    } else {
        None
    }
}

/// The detail reported for unbalanced delimiters of the given kind.
pub open spec fn unbalanced_detail(kind: Seq<char>, open: nat, close: nat) -> Seq<char> {
    "Unbalanced "@ + kind + ": "@ + decimal(open) + " open, "@ + decimal(close) + " close"@
}

/// The detail reported for delimiters that cross.
pub open spec fn crossed_detail(braces: nat, parentheses: nat) -> Seq<char> {
    "Unbalanced nesting of "@ + decimal(braces) + " braces and "@ + decimal(parentheses)
        + " parentheses"@
}

/// Whether `e` is the error that reports `fault`.
pub open spec fn reports(e: CompilerError, fault: StructuralFault) -> bool {
    match fault {
        StructuralFault::Blank => e is InvalidRuleStructure && e.detail()
            == "Source cannot be empty"@,
        StructuralFault::UnbalancedBraces { open, close } => e is SyntaxError && e.detail()
            == unbalanced_detail("braces"@, open, close),
        StructuralFault::UnbalancedParentheses { open, close } => e is SyntaxError && e.detail()
            == unbalanced_detail("parentheses"@, open, close),
        StructuralFault::CrossedDelimiters { braces, parentheses } => e is SyntaxError
            && e.detail() == crossed_detail(braces, parentheses),
        StructuralFault::MissingKeyword => e is InvalidRuleStructure && e.detail()
            == "Source must contain 'when' or 'rule' definitions"@,
    }
}

/// The executable unit for `source`: runtime preamble, the source verbatim,
/// then the entry point.
pub open spec fn unit_text(source: Seq<char>) -> Seq<char> {
    UNIT_HEADER@ + RUNTIME_JS@ + UNIT_SOURCE_HEADER@ + source + UNIT_ENTRY_POINT@
}

/// Source that is structurally sound compiles, and its delimiters nest.
pub proof fn lemma_sound_source_compiles(source: Seq<char>)
    requires
        structural_fault(source) is None,
    ensures
        has_rule_keyword(source),
        well_nested(source),
{
}

/// What is open holds opening delimiters only, and each kind is opened as
/// often as it is closed or still open.
pub proof fn lemma_open_delimiters_count(source: Seq<char>)
    requires
        open_delimiters(source) is Some,
    ensures
        count_char(source, '{') == count_char(source, '}') + count_char(
            open_delimiters(source)->0,
            '{',
        ),
        count_char(source, '(') == count_char(source, ')') + count_char(
            open_delimiters(source)->0,
            '(',
        ),
        count_char(open_delimiters(source)->0, '}') == 0,
        count_char(open_delimiters(source)->0, ')') == 0,
    decreases source.len(),
{
    if source.len() > 0 {
        let front = source.drop_last();
        let c = source.last();
        lemma_open_delimiters_count(front);
        let open = open_delimiters(front)->0;
        if c == '{' || c == '(' {
            assert(open.push(c).drop_last() == open);
        }
    }
}

/// Delimiters that nest are balanced in number: the count checks turn
/// down nothing that the nesting check would let pass.
pub proof fn lemma_well_nested_is_balanced(source: Seq<char>)
    requires
        well_nested(source),
    ensures
        count_char(source, '{') == count_char(source, '}'),
        count_char(source, '(') == count_char(source, ')'),
{
    lemma_open_delimiters_count(source);
}

/// Source in which a closing delimiter stands before its opener has a
/// structural fault, whatever follows and however the counts come out in
/// the end: where some prefix closes more of a kind than it opens, the
/// delimiters do not nest.
pub proof fn lemma_closer_before_opener_is_fault(source: Seq<char>, n: int)
    requires
        0 <= n <= source.len(),
        count_char(source.take(n), '}') > count_char(source.take(n), '{') || count_char(
            source.take(n),
            ')',
        ) > count_char(source.take(n), '('),
    ensures
        !well_nested(source),
        structural_fault(source) is Some,
{
    if open_delimiters(source.take(n)) is Some {
        lemma_open_delimiters_count(source.take(n));
    } else {
        lemma_crossing_stays(source, n);
    }
}

/// A closing delimiter that found no opener is not mended by what follows.
proof fn lemma_crossing_stays(source: Seq<char>, n: int)
    requires
        0 <= n <= source.len(),
        open_delimiters(source.take(n)) is None,
    ensures
        open_delimiters(source) is None,
    decreases source.len() - n,
{
    if n < source.len() {
        assert(source.take(n + 1).drop_last() == source.take(n));
        lemma_crossing_stays(source, n + 1);
    } else {
        assert(source.take(n) == source);
    }
}

/// A unit holds its source verbatim, behind the runtime.
pub proof fn lemma_unit_holds_source(source: Seq<char>)
    ensures
        occurs_at(
            unit_text(source),
            source,
            (UNIT_HEADER@ + RUNTIME_JS@ + UNIT_SOURCE_HEADER@).len() as int,
        ),
        contains_text(unit_text(source), source),
        occurs_at(unit_text(source), UNIT_HEADER@ + RUNTIME_JS@, 0),
{
    let head = UNIT_HEADER@ + RUNTIME_JS@ + UNIT_SOURCE_HEADER@;
    let unit = unit_text(source);
    assert(unit.subrange(head.len() as int, (head.len() + source.len()) as int) =~= source);
    assert(unit.subrange(0, (UNIT_HEADER@ + RUNTIME_JS@).len() as int) =~= UNIT_HEADER@
        + RUNTIME_JS@);
}

/// Builds the detail for unbalanced delimiters.
fn unbalanced_message(kind: &str, open: usize, close: usize) -> (m: String)
    ensures
        m@ == unbalanced_detail(kind@, open as nat, close as nat),
{
    let mut m = String::from_str("Unbalanced ");
    m.append(kind);
    m.append(": ");
    m.append(decimal_string(open).as_str());
    m.append(" open, ");
    m.append(decimal_string(close).as_str());
    m.append(" close");
    m
}

/// Builds the detail for delimiters that cross.
fn crossed_message(braces: usize, parentheses: usize) -> (m: String)
    ensures
        m@ == crossed_detail(braces as nat, parentheses as nat),
{
    let mut m = String::from_str("Unbalanced nesting of ");
    m.append(decimal_string(braces).as_str());
    m.append(" braces and ");
    m.append(decimal_string(parentheses).as_str());
    m.append(" parentheses");
    m
}

/// Tells whether braces and parentheses nest in the text.
fn nests(text: &Vec<char>) -> (b: bool)
    ensures
        b == well_nested(text@),
{
    let mut open: Vec<char> = Vec::new();
    let mut i: usize = 0;
    while i < text.len()
        invariant
            i <= text.len(),
            open_delimiters(text@.take(i as int)) == Some(open@),
        decreases text.len() - i,
    {
        proof {
            assert(text@.take(i + 1).drop_last() == text@.take(i as int));
            assert(text@.take(i + 1).last() == text@[i as int]);
        }
        let c = text[i];
        if c == '{' || c == '(' {
            open.push(c);
        } else if c == '}' || c == ')' {
            let opener = if c == '}' {
                '{'
            } else {
                '('
            };
            if open.len() > 0 && open[open.len() - 1] == opener {
                let ghost before = open@;
                open.pop();
                proof {
                    assert(open@ =~= before.drop_last());
                }
            } else {
                proof {
                    lemma_crossing_stays(text@, i + 1);
                }
                return false;
            }
        }
        i = i + 1;
    }
    proof {
        assert(text@.take(text.len() as int) == text@);
    }
    open.len() == 0
}

/// Tells whether the text names a rule declaration or a condition.
fn mentions_rule_keyword(text: &Vec<char>) -> (b: bool)
    ensures
        b == has_rule_keyword(text@),
{
    let when = chars_of("when");
    let rule = chars_of("rule");
    contains(text, &when) || contains(text, &rule)
}

/// Compiler for rule templates.
pub struct RuleCompiler;

impl RuleCompiler {
    pub fn new() -> (c: Self) {
        RuleCompiler
    }

    /// Expands rule source into an executable unit.
    ///
    /// Succeeds exactly when the source names a rule declaration or a
    /// condition; the unit then holds the source verbatim between the runtime
    /// and the entry point.
    pub fn compile(&self, source: &str) -> (r: Result<String, CompilerError>)
        ensures
            has_rule_keyword(source@) ==> (r matches Ok(unit) && unit@ == unit_text(source@)),
            !has_rule_keyword(source@) ==> (r matches Err(e) && reports(
                e,
                StructuralFault::MissingKeyword,
            )),
    {
        let text = chars_of(source);
        if !mentions_rule_keyword(&text) {
            return Err(
                CompilerError::InvalidRuleStructure(
                    String::from_str("Source must contain 'when' or 'rule' definitions"),
                ),
            );
        }
        let mut unit = String::from_str(UNIT_HEADER);
        unit.append(RUNTIME_JS);
        unit.append(UNIT_SOURCE_HEADER);
        unit.append(source);
        unit.append(UNIT_ENTRY_POINT);
        Ok(unit)
    }

    /// Checks rule source for structural defects without compiling it.
    ///
    /// Accepts exactly the sources that have no structural fault, and
    /// otherwise reports the first one. Source is accepted only where its
    /// braces and parentheses nest.
    pub fn validate(&self, source: &str) -> (r: Result<(), CompilerError>)
        ensures
            match structural_fault(source@) {
                None => r is Ok,
                Some(fault) => r matches Err(e) && reports(e, fault),
            },
    {
        let text = chars_of(source);
        if is_blank_text(&text) {
            return Err(
                CompilerError::InvalidRuleStructure(String::from_str("Source cannot be empty")),
            );
        }
        let open_braces = count_occurrences(&text, '{');
        let close_braces = count_occurrences(&text, '}');
        if open_braces != close_braces {
            return Err(
                CompilerError::SyntaxError(unbalanced_message("braces", open_braces, close_braces)),
            );
        }
        let open_parens = count_occurrences(&text, '(');
        let close_parens = count_occurrences(&text, ')');
        if open_parens != close_parens {
            return Err(
                CompilerError::SyntaxError(
                    unbalanced_message("parentheses", open_parens, close_parens),
                ),
            );
        }
        if !nests(&text) {
            return Err(CompilerError::SyntaxError(crossed_message(open_braces, open_parens)));
        }
        if !mentions_rule_keyword(&text) {
            return Err(
                CompilerError::InvalidRuleStructure(
                    String::from_str("Source must contain 'when' or 'rule' definitions"),
                ),
            );
        }
        Ok(())
    }
}

impl Default for RuleCompiler {
    fn default() -> (c: Self) {
        RuleCompiler
    }
}

} // verus!
