use thorn::ast::{Expr, Stmt};
use thorn::python::parse_python;

#[test]
fn import_from_module_name() {
    let m = parse_python("from app.models import User\n").unwrap();
    let stmt = &m.body[0];
    if let Stmt::ImportFrom(imp) = stmt {
        assert_eq!(imp.module.as_deref(), Some("app.models"));
        assert_eq!(imp.names.len(), 1);
        assert_eq!(imp.names[0].name, "User");
        assert_eq!(imp.level, 0);
    } else {
        panic!("expected ImportFrom, got {:?}", stmt);
    }
}

#[test]
fn import_from_multiple_names() {
    let m = parse_python("from os.path import join, exists\n").unwrap();
    if let Stmt::ImportFrom(imp) = &m.body[0] {
        assert_eq!(imp.module.as_deref(), Some("os.path"));
        assert_eq!(imp.names.len(), 2);
        assert_eq!(imp.names[0].name, "join");
        assert_eq!(imp.names[1].name, "exists");
    } else {
        panic!("expected ImportFrom");
    }
}

#[test]
fn import_from_with_alias() {
    let m = parse_python("from x import y as z\n").unwrap();
    if let Stmt::ImportFrom(imp) = &m.body[0] {
        assert_eq!(imp.module.as_deref(), Some("x"));
        assert_eq!(imp.names.len(), 1);
        assert_eq!(imp.names[0].name, "y");
        assert_eq!(imp.names[0].asname.as_deref(), Some("z"));
    } else {
        panic!("expected ImportFrom");
    }
}

#[test]
fn import_from_relative() {
    let m = parse_python("from . import foo\n").unwrap();
    if let Stmt::ImportFrom(imp) = &m.body[0] {
        assert!(imp.module.is_none());
        assert_eq!(imp.level, 1);
        assert_eq!(imp.names[0].name, "foo");
    } else {
        panic!("expected ImportFrom");
    }
}

#[test]
fn import_from_wildcard() {
    let m = parse_python("from foo import *\n").unwrap();
    if let Stmt::ImportFrom(imp) = &m.body[0] {
        assert_eq!(imp.module.as_deref(), Some("foo"));
        assert_eq!(imp.names.len(), 1);
        assert_eq!(imp.names[0].name, "*");
    } else {
        panic!("expected ImportFrom");
    }
}

#[test]
fn except_clause_with_type() {
    let m = parse_python("try:\n    pass\nexcept ValueError:\n    pass\n").unwrap();
    if let Stmt::Try(t) = &m.body[0] {
        assert_eq!(t.handlers.len(), 1);
        let h = &t.handlers[0];
        assert!(h.type_.is_some(), "except handler type_ should be Some");
        if let Some(Expr::Name(n)) = h.type_.as_deref() {
            assert_eq!(n.id, "ValueError");
        } else {
            panic!("expected Name expr for exception type, got {:?}", h.type_);
        }
        assert!(h.name.is_none());
    } else {
        panic!("expected Try");
    }
}

#[test]
fn except_clause_with_type_and_name() {
    let m = parse_python("try:\n    pass\nexcept ValueError as e:\n    pass\n").unwrap();
    if let Stmt::Try(t) = &m.body[0] {
        let h = &t.handlers[0];
        assert!(h.type_.is_some());
        if let Some(Expr::Name(n)) = h.type_.as_deref() {
            assert_eq!(n.id, "ValueError");
        } else {
            panic!("expected Name expr, got {:?}", h.type_);
        }
        assert_eq!(h.name.as_deref(), Some("e"));
    } else {
        panic!("expected Try");
    }
}

#[test]
fn except_bare() {
    let m = parse_python("try:\n    pass\nexcept:\n    pass\n").unwrap();
    if let Stmt::Try(t) = &m.body[0] {
        let h = &t.handlers[0];
        assert!(h.type_.is_none());
        assert!(h.name.is_none());
    } else {
        panic!("expected Try");
    }
}

#[test]
fn string_literal_no_quotes() {
    let m = parse_python("x = \"__all__\"\n").unwrap();
    if let Stmt::Assign(a) = &m.body[0] {
        if let Expr::StringLiteral(s) = a.value.as_ref() {
            assert_eq!(s.value, "__all__");
        } else {
            panic!("expected StringLiteral, got {:?}", a.value);
        }
    } else {
        panic!("expected Assign");
    }
}

#[test]
fn string_literal_single_quotes() {
    let m = parse_python("x = '__all__'\n").unwrap();
    if let Stmt::Assign(a) = &m.body[0] {
        if let Expr::StringLiteral(s) = a.value.as_ref() {
            assert_eq!(s.value, "__all__");
        } else {
            panic!("expected StringLiteral");
        }
    } else {
        panic!("expected Assign");
    }
}

#[test]
fn class_with_base() {
    let m = parse_python("class MyForm(forms.ModelForm):\n    pass\n").unwrap();
    if let Stmt::ClassDef(c) = &m.body[0] {
        assert_eq!(c.name, "MyForm");
        let args = c.arguments.as_ref().expect("should have arguments");
        assert_eq!(args.args.len(), 1);
        if let Expr::Attribute(a) = &args.args[0] {
            assert_eq!(a.attr, "ModelForm");
        } else {
            panic!("expected Attribute, got {:?}", args.args[0]);
        }
    } else {
        panic!("expected ClassDef");
    }
}
