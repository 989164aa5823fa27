use vstd::prelude::*;

verus! {

use vstd::string::StringSliceAdditionalSpecFns;
use crate::error::{spec_kind_from_code, InvalidName, ParseError, ParseErrorKind};
use crate::error::ErrorRecord;
use crate::names::{bytes_have_null, c_string, valid_name};
use crate::table::{SymbolTable, TableModel};

/// What the native compiler reported at the end of a compile call.
#[derive(Debug)]
pub enum CompileOutcome {
    /// The formula compiled against the registered symbol table.
    Accepted,
    /// Compilation failed; the record is the compiler's pending error,
    /// queried exactly once after the failure.
    Rejected(ErrorRecord),
}

/// The mathematical content of a recorded unknown-variable list: each
/// entry a (name, identifier) pair, in encounter order.
pub open spec fn pairs_model(s: Seq<(String, usize)>) -> Seq<(Seq<char>, usize)> {
    s.map_values(|p: (String, usize)| (p.0@, p.1))
}

/// A compile session: the managed state while the native compiler works
/// through a formula. The session owns the symbol table the expression
/// will own, applies the unknown-symbol resolution policy when the native
/// compiler raises a name, and turns the final outcome into an expression
/// or a structured error.
#[derive(Debug)]
pub struct Compilation {
    formula: String,
    symbols: SymbolTable,
    new_vars: Vec<(String, usize)>,
}

impl Compilation {
    /// The formula under compilation.
    pub closed spec fn spec_formula(&self) -> Seq<char> {
        self.formula@
    }

    /// The table the session registers into.
    pub closed spec fn spec_symbols(&self) -> TableModel {
        self.symbols@
    }

    /// The (name, identifier) pairs recorded so far, in encounter order.
    pub closed spec fn spec_new_vars(&self) -> Seq<(Seq<char>, usize)> {
        pairs_model(self.new_vars@)
    }

    /// The session's table is well-formed.
    pub open spec fn wf(&self) -> bool {
        self.spec_symbols().wf()
    }

    /// Opens a compile session: the null-byte gate. A formula containing
    /// a null byte cannot cross the byte-oriented native interface and is
    /// rejected as a synthetic syntax-class error without native
    /// involvement. The symbol table is consumed either way: the
    /// expression under construction owns it from here on.
    pub fn begin(formula: &str, symbols: SymbolTable) -> (r: Result<Compilation, ParseError>)
        requires
            symbols.wf(),
        ensures
            match r {
                Ok(c) => {
                    &&& !bytes_have_null(formula.spec_bytes())
                    &&& c.wf()
                    &&& c.spec_formula() == formula@
                    &&& c.spec_symbols() == symbols@
                    &&& c.spec_new_vars() == Seq::<(Seq<char>, usize)>::empty()
                },
                Err(e) => {
                    &&& bytes_have_null(formula.spec_bytes())
                    &&& e.kind == ParseErrorKind::Syntax
                    &&& e.token_type@ == Seq::<char>::empty()
                    &&& e.token_value@ == formula@
                    &&& e.message@ == "Non-ASCII character or null byte found in formula"@
                    &&& e.line@ == Seq::<char>::empty()
                    &&& e.line_no == 1
                    &&& e.column_no == 1
                },
            },
    {
        match c_string(formula) {
            Ok(_) => {
                let c = Compilation {
                    formula: formula.to_owned(),
                    symbols,
                    new_vars: Vec::new(),
                };
                proof {
                    assert(c.spec_new_vars() =~= Seq::<(Seq<char>, usize)>::empty());
                }
                Ok(c)
            },
            Err(e) => Err(ParseError::from_invalid_name(e)),
        }
    }

    /// The resolution policy behind automatic variable registration: an
    /// unknown name raised by the native compiler is registered as a new
    /// variable initialized to zero, and the (name, identifier) pair is
    /// recorded in encounter order. The native compiler raises only names
    /// absent from the table, so a present name is excluded here; a name
    /// the validator rejects aborts the resolution instead.
    pub fn resolve_new_variable(&mut self, name: &str) -> (r: Result<usize, InvalidName>)
        requires
            old(self).wf(),
            !old(self).spec_symbols().contains(name@),
            old(self).spec_symbols().next_var_id < usize::MAX,
        ensures
            final(self).wf(),
            final(self).spec_formula() == old(self).spec_formula(),
            match r {
                Ok(id) => {
                    &&& valid_name(name@)
                    &&& id == old(self).spec_symbols().next_var_id
                    &&& final(self).spec_symbols() == (TableModel {
                        vars: old(self).spec_symbols().vars.push((name@, 0u64)),
                        next_var_id: old(self).spec_symbols().next_var_id + 1,
                        ..old(self).spec_symbols()
                    })
                    &&& final(self).spec_new_vars() == old(self).spec_new_vars().push((name@, id))
                },
                Err(e) => {
                    &&& !valid_name(name@)
                    &&& e.0@ == name@
                    &&& final(self).spec_symbols() == old(self).spec_symbols()
                    &&& final(self).spec_new_vars() == old(self).spec_new_vars()
                },
            },
    {
        match self.symbols.add_variable(name, 0) {
            Ok(Some(id)) => {
                self.new_vars.push((name.to_owned(), id));
                proof {
                    let f = |p: (String, usize)| (p.0@, p.1);
                    assert(self.new_vars@.map_values(f) =~= old(self).new_vars@.map_values(f).push(
                        (name@, id),
                    ));
                }
                Ok(id)
            },
            Ok(None) => {
                proof {
                    assert(false);
                }
                Err(InvalidName(name.to_owned()))
            },
            Err(e) => Err(e),
        }
    }

    /// Closes the session with the outcome the native compiler reported.
    /// Acceptance yields the expression, owning the table as the session
    /// left it, together with the recorded unknown-variable list;
    /// rejection decodes the pending error record. A rejection whose
    /// record reports no pending error, or an error class outside the
    /// known range, would be an internal invariant violation of the
    /// native layer, so those cases are excluded.
    pub fn finish(self, outcome: CompileOutcome) -> (r: Result<
        (Expression, Vec<(String, usize)>),
        ParseError,
    >)
        requires
            self.wf(),
            outcome matches CompileOutcome::Rejected(rec) ==> rec.is_err && spec_kind_from_code(
                rec.mode as int,
            ) is Some,
        ensures
            match r {
                Ok((e, vars)) => {
                    &&& outcome is Accepted
                    &&& e.wf()
                    &&& e.spec_formula() == self.spec_formula()
                    &&& e.spec_symbols() == self.spec_symbols()
                    &&& pairs_model(vars@) == self.spec_new_vars()
                },
                Err(pe) => match outcome {
                    CompileOutcome::Rejected(rec) => {
                        &&& Some(pe.kind) == spec_kind_from_code(rec.mode as int)
                        &&& pe.token_type@ == rec.token_type@
                        &&& pe.token_value@ == rec.token_value@
                        &&& pe.message@ == rec.diagnostic@
                        &&& pe.line@ == rec.error_line@
                        &&& pe.line_no == rec.line_no
                        &&& pe.column_no == rec.column_no
                    },
                    CompileOutcome::Accepted => false,
                },
            },
    {
        match outcome {
            CompileOutcome::Accepted => {
                let e = Expression { formula: self.formula, symbols: self.symbols };
                Ok((e, self.new_vars))
            },
            CompileOutcome::Rejected(rec) => {
                match ParseError::from_record(&rec) {
                    Some(pe) => Err(pe),
                    None => {
                        proof {
                            assert(false);
                        }
                        Err(ParseError::simple_syntax("", ""))
                    },
                }
            },
        }
    }
}

/// A compiled expression: the formula text and the symbol table it owns.
/// The compiled native handle lives outside this crate and cannot be
/// duplicated, only recreated; the formula text is retained precisely so
/// that a clone can recompile it against the cloned table.
#[derive(Debug)]
pub struct Expression {
    formula: String,
    symbols: SymbolTable,
}

impl Expression {
    /// The formula this expression was compiled from.
    pub closed spec fn spec_formula(&self) -> Seq<char> {
        self.formula@
    }

    /// The content of the owned symbol table.
    pub closed spec fn spec_symbols(&self) -> TableModel {
        self.symbols@
    }

    /// The owned table is well-formed.
    pub open spec fn wf(&self) -> bool {
        self.spec_symbols().wf()
    }

    /// The formula text.
    pub fn formula(&self) -> (r: &String)
        ensures
            r@ == self.spec_formula(),
    {
        &self.formula
    }

    /// The symbol table owned by the expression.
    pub fn symbols(&self) -> (r: &SymbolTable)
        ensures
            r@ == self.spec_symbols(),
    {
        &self.symbols
    }

    /// Takes the expression apart into its formula and its table, for a
    /// caller that must recreate the native handle (a clone recompiles,
    /// and teardown re-registers nothing).
    pub fn into_parts(self) -> (r: (String, SymbolTable))
        ensures
            r.0@ == self.spec_formula(),
            r.1@ == self.spec_symbols(),
    {
        (self.formula, self.symbols)
    }

    /// Mutable access to the owned symbol table: values may be changed
    /// between evaluations. The formula stays as it is.
    pub fn symbols_mut(&mut self) -> (r: &mut SymbolTable)
        ensures
            r@ == old(self).spec_symbols(),
            final(self).spec_symbols() == final(r)@,
            final(self).spec_formula() == old(self).spec_formula(),
    {
        &mut self.symbols
    }
}

impl Clone for Expression {
    /// Cloning keeps the formula and deep-copies the owned symbol table.
    /// The native handle belonging to the clone must be recreated by
    /// compiling the same formula against the copied table.
    fn clone(&self) -> (r: Self)
        ensures
            r.spec_formula() == self.spec_formula(),
            r.spec_symbols() == self.spec_symbols(),
    {
        Expression { formula: self.formula.clone(), symbols: self.symbols.clone() }
    }
}

} // verus!
