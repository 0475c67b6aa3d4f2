//! The code of the arithmetic, comparison and logical operations.

use vstd::prelude::*;
use vstd::string::*;
use crate::assembly::VariableRegister;
use crate::command::{Operation, operation_of};
use crate::error::{ErrorView, TranslateError};
use crate::fragments::operation_fragment;
use crate::indent::unindent_text;
use crate::lowering::{
    is_comparison, is_logical, lemma_operation_template, operation_code, operation_template,
};

verus! {

/// Generates the code that computes an operation once its operands are in
/// place.
pub struct ArithmeticCommandHelper {}

impl ArithmeticCommandHelper {
    /// The code of the operation named `command`. The second operand is
    /// expected in `variable_register`, and a comparison takes its labels
    /// from `comparison_count`. Fails with a syntax error that holds
    /// `command` where it names no operation.
    pub fn get_command(
        command: &str,
        variable_register: &VariableRegister,
        comparison_count: u16,
    ) -> (r: Result<String, TranslateError>)
        ensures
            match operation_of(command@) {
                Some(op) => r matches Ok(code) && code@ == operation_code(
                    op,
                    *variable_register,
                    comparison_count,
                ),
                None => r matches Err(e) && e@ == ErrorView::Syntax(command@),
            },
    {
        match Operation::parse(command) {
            Some(op) => {
                let template = Self::get_template(op, *variable_register, comparison_count);
                proof {
                    lemma_operation_template(op, *variable_register, comparison_count);
                }
                Ok(unindent_text(template.as_str()))
            },
            None => Err(TranslateError::Syntax(command.to_owned())),
        }
    }

    /// The text from which the code of an operation is made by removing the
    /// indentation that its lines share and its empty first line.
    pub fn get_template(op: Operation, variable_register: VariableRegister, comparison_count: u16)
        -> (template: String)
        ensures
            template@ == operation_template(op, variable_register, comparison_count),
    {
        match op {
            Operation::Add | Operation::Sub | Operation::Neg => Self::get_arithmetic_command(
                op,
                variable_register,
            ),
            Operation::Eq | Operation::Gt | Operation::Lt => Self::get_comparison_command(
                op,
                variable_register,
                comparison_count,
            ),
            Operation::And | Operation::Or | Operation::Not => Self::get_logical_command(
                op,
                variable_register,
            ),
        }
    }

    fn get_arithmetic_command(op: Operation, variable_register: VariableRegister) -> (template:
        String)
        requires
            !is_comparison(op),
            !is_logical(op),
        ensures
            template@ == operation_template(op, variable_register, 0),
    {
        operation_fragment(op, variable_register, 0).join()
    }

    fn get_comparison_command(
        op: Operation,
        variable_register: VariableRegister,
        comparison_count: u16,
    ) -> (template: String)
        requires
            is_comparison(op),
        ensures
            template@ == operation_template(op, variable_register, comparison_count),
    {
        operation_fragment(op, variable_register, comparison_count).render()
    }

    fn get_logical_command(op: Operation, variable_register: VariableRegister) -> (template: String)
        requires
            is_logical(op),
        ensures
            template@ == operation_template(op, variable_register, 0),
    {
        operation_fragment(op, variable_register, 0).join()
    }
}

} // verus!
