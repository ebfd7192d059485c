use jscore::ast::nodes::{
    BindingPatternKind, ClassElement, Expression, Program, Statement, TSType,
};
use jscore::span::Span;

fn assert_program_variant_lifetime<'a: 'b, 'b>(program: Program<'a>) -> Program<'b> {
    program
}

#[test]
fn lifetime_variance() {
    let source = String::from("let x;");
    let program =
        Program { span: Span::new(0, 6), source_text: &source, body: Vec::new(), scope_id: None };
    let shorter = assert_program_variant_lifetime(program);
    assert_eq!(shorter.source_text, "let x;");
}

#[test]
fn size_asserts() {
    assert_eq!(std::mem::size_of::<Statement>(), 16);
    assert_eq!(std::mem::size_of::<Expression>(), 16);
    assert_eq!(std::mem::size_of::<BindingPatternKind>(), 16);
    assert_eq!(std::mem::size_of::<ClassElement>(), 16);
    assert_eq!(std::mem::size_of::<TSType>(), 16);
}
