//! Indexing: integer indices counted from either end, element access, and
//! the visibility check for struct members.

use crate::error::{Error, ErrorKind};
use crate::interpreter::eval::error_at;
use crate::interpreter::Interpreter;
use crate::memory::heap::{prop_get, props_get};
use crate::object::{copy_object, kind_of, Object};
use crate::span::Span;
use vstd::prelude::*;
use vstd::string::{StrSliceExecFns, StringSliceAdditionalSpecFns};

verus! {

/// The position that index `idx` denotes in a sequence of `len` items: a
/// negative index counts from the end. `None` when it falls outside.
pub open spec fn index_of(idx: int, len: int) -> Option<int> {
    let pos = if idx < 0 { len + idx } else { idx };
    if 0 <= pos < len {
        Some(pos)
    } else {
        None
    }
}

/// The item at index `idx` of `elements`, or the empty value.
pub open spec fn element_at<'a>(elements: Seq<Object<'a>>, idx: int) -> Object<'a> {
    match index_of(idx, elements.len() as int) {
        Some(i) => elements[i],
        None => Object::Void,
    }
}

/// The one-character string of `c` (`char::to_string`).
#[verifier::external_body]
pub(crate) fn char_string(c: char) -> (s: String)
    ensures
        s@ == seq![c],
{
    c.to_string()
}

/// The length in bytes of a string's UTF-8 encoding, as `str::len` gives it.
pub open spec fn byte_len(s: String) -> int {
    (vstd::utf8::encode_utf8(s@).len() as usize) as int
}

/// A string indexed at `idx` can be served: the index does not fall inside
/// the string's bytes yet past its characters.
pub open spec fn string_index_ok(s: String, idx: int) -> bool {
    index_of(idx, byte_len(s)) matches Some(i) ==> i < s@.len()
}

/// What indexing `object` with `index` yields, for a well-formed heap.
pub open spec fn index_result<'a>(it: Interpreter<'a>, object: Object<'a>, index: Object<'a>) -> Option<Object<'a>> {
    match object {
        Object::Array { id, .. } => match index {
            Object::Integer(i) => Some(if id < it.heap.arrays.len() {
                element_at(it.heap.arrays@[id as int]@, i as int)
            } else {
                Object::Void
            }),
            _ => None,
        },
        Object::Tuple { id } => match index {
            Object::Integer(i) => Some(if id < it.heap.tuples.len() {
                element_at(it.heap.tuples@[id as int]@, i as int)
            } else {
                Object::Void
            }),
            _ => None,
        },
        Object::Object { id, .. } => match index {
            Object::String(key) => Some(if id < it.heap.objects.len() {
                match prop_get(it.heap.objects@[id as int]@, key@) {
                    Some(v) => v,
                    None => Object::Void,
                }
            } else {
                Object::Void
            }),
            _ => None,
        },
        _ => None,
    }
}

/// What indexing `object` with `index` at `span` gives, as
/// `eval_checked_index` says, where it is an error or a value other than
/// one character of a string: `None` for a character of a string.
pub open spec fn index_outcome<'a>(it: Interpreter<'a>, object: Object<'a>, index: Object<'a>, span: Span) -> Option<
    Result<Object<'a>, Error>,
> {
    match object {
        Object::String(s) => match index {
            Object::Integer(i) => if !string_index_ok(s, i as int) {
                Some(Err(error_at(ErrorKind::CharIndexPastEnd { index: i }, span)))
            } else if index_of(i as int, byte_len(s)) is None {
                Some(Ok(Object::Void))
            } else {
                None
            },
            _ => Some(Err(error_at(ErrorKind::IndexNotInteger { found: kind_of(index) }, span))),
        },
        _ => match index_result(it, object, index) {
            Some(v) => Some(Ok(v)),
            None => Some(
                Err(
                    error_at(
                        if object is Array || object is Tuple {
                            ErrorKind::IndexNotInteger { found: kind_of(index) }
                        } else if object is Object {
                            ErrorKind::KeyNotString { found: kind_of(index) }
                        } else {
                            ErrorKind::NotIndexable { found: kind_of(object) }
                        },
                        span,
                    ),
                ),
            ),
        },
    }
}

impl<'a> Interpreter<'a> {
    /// The integer an index holds; any other value is `IndexNotInteger`.
    pub fn ensure_int_index(&self, index: &Object<'a>, span: Span) -> (res: Result<i64, Error>)
        ensures
            *index matches Object::Integer(i) ==> res == Ok::<i64, Error>(i),
            !(*index is Integer) ==> (res matches Err(e) && e.kind == (ErrorKind::IndexNotInteger { found: kind_of(*index) })
                && e.span == span && e.source is None && e.file is None),
    {
        match index {
            Object::Integer(i) => Ok(*i),
            _ => Err(Error::new(ErrorKind::IndexNotInteger { found: index.value_kind() }, span)),
        }
    }

    /// Resolves a possibly negative index against a length.
    pub fn resolve_index(&self, idx: i64, len: usize) -> (r: Option<usize>)
        ensures
            r matches Some(i) ==> index_of(idx as int, len as int) == Some(i as int),
            r is None ==> index_of(idx as int, len as int) is None,
    {
        let pos: i128 = if idx < 0 { len as i128 + idx as i128 } else { idx as i128 };
        if pos >= 0 && pos < len as i128 {
            Some(pos as usize)
        } else {
            None
        }
    }

    /// The element at index `idx`, or the empty value when it is out of range.
    pub fn get_by_index(&self, elements: &Vec<Object<'a>>, idx: i64) -> (r: Object<'a>)
        ensures
            r == element_at(elements@, idx as int),
    {
        match self.resolve_index(idx, elements.len()) {
            Some(i) => copy_object(&elements[i]),
            None => Object::Void,
        }
    }

    /// Evaluates `object[index]`. Arrays and tuples take an integer index,
    /// counted from the end when negative; an index out of range gives the
    /// empty value. Strings take an integer index too and give the character
    /// there as a string. Objects take a string key and give the property or
    /// the empty value. Anything else cannot be indexed.
    pub fn eval_index_expression(&self, object: Object<'a>, index: Object<'a>, span: Span) -> (res: Result<Object<'a>, Error>)
        requires
            object matches Object::String(s) ==> (index matches Object::Integer(i) ==> string_index_ok(s, i as int)),
        ensures
            index_result(*self, object, index) matches Some(v) ==> res == Ok::<Object<'a>, Error>(v),
            object matches Object::String(s) ==> match index {
                Object::Integer(i) => match index_of(i as int, byte_len(s)) {
                    Some(k) => (res matches Ok(Object::String(c)) && c@ == seq![s@[k]]),
                    None => res == Ok::<Object<'a>, Error>(Object::Void),
                },
                _ => (res matches Err(e) && e.kind == (ErrorKind::IndexNotInteger { found: kind_of(index) }) && e.span == span),
            },
            (object is Array || object is Tuple) && !(index is Integer) ==> (res matches Err(e)
                && e.kind == (ErrorKind::IndexNotInteger { found: kind_of(index) }) && e.span == span),
            object is Object && !(index is String) ==> (res matches Err(e)
                && e.kind == (ErrorKind::KeyNotString { found: kind_of(index) }) && e.span == span),
            !(object is Array || object is Tuple || object is String || object is Object) ==> (res matches Err(e)
                && e.kind == (ErrorKind::NotIndexable { found: kind_of(object) }) && e.span == span),
            res matches Err(e) ==> e.source is None && e.file is None,
    {
        match &object {
            Object::Array { id, .. } => {
                let idx = match self.ensure_int_index(&index, span) {
                    Ok(i) => i,
                    Err(e) => {
                        return Err(e);
                    },
                };
                if *id < self.heap.arrays.len() {
                    Ok(self.get_by_index(&self.heap.arrays[*id], idx))
                } else {
                    Ok(Object::Void)
                }
            },
            Object::Tuple { id } => {
                let idx = match self.ensure_int_index(&index, span) {
                    Ok(i) => i,
                    Err(e) => {
                        return Err(e);
                    },
                };
                if *id < self.heap.tuples.len() {
                    Ok(self.get_by_index(&self.heap.tuples[*id], idx))
                } else {
                    Ok(Object::Void)
                }
            },
            Object::String(s) => {
                let idx = match self.ensure_int_index(&index, span) {
                    Ok(i) => i,
                    Err(e) => {
                        return Err(e);
                    },
                };
                match self.resolve_index(idx, s.as_str().len()) {
                    Some(i) => {
                        let c = s.as_str().get_char(i);
                        Ok(Object::String(char_string(c)))
                    },
                    None => Ok(Object::Void),
                }
            },
            Object::Object { id, .. } => {
                let key = match &index {
                    Object::String(k) => k,
                    _ => {
                        return Err(Error::new(ErrorKind::KeyNotString { found: index.value_kind() }, span));
                    },
                };
                if *id < self.heap.objects.len() {
                    match props_get(&self.heap.objects[*id], key) {
                        Some(v) => Ok(v),
                        None => Ok(Object::Void),
                    }
                } else {
                    Ok(Object::Void)
                }
            },
            _ => Err(Error::new(ErrorKind::NotIndexable { found: object.value_kind() }, span)),
        }
    }

    /// Checks that a struct member may be used here: public members always,
    /// private ones only while running a method of the same struct.
    pub fn ensure_accessible(&self, public: bool, member_name: &String, struct_name: &String, span: Span) -> (res: Result<(), Error>)
        requires
            self.wf(),
        ensures
            res is Ok <==> (public || (self.stack.lookup("__current_struct__"@) matches Some(Object::String(n))
                && n@ == struct_name@)),
            res matches Err(e) ==> e.kind == (ErrorKind::PrivateMember { member: *member_name }) && e.span == span
                && e.source is None && e.file is None,
    {
        if public {
            return Ok(());
        }
        let current_struct = self.stack.get(&String::from_str("__current_struct__"));
        let allowed = match &current_struct {
            Some(Object::String(name)) => *name == *struct_name,
            _ => false,
        };
        if !allowed {
            return Err(Error::new(ErrorKind::PrivateMember { member: member_name.clone() }, span));
        }
        Ok(())
    }

    /// The value bound to `this`; where there is none, `ThisNotDefined`.
    pub fn get_this(&self, span: Span) -> (res: Result<Object<'a>, Error>)
        requires
            self.wf(),
        ensures
            self.stack.lookup("this"@) matches Some(v) ==> res == Ok::<Object<'a>, Error>(v),
            self.stack.lookup("this"@) is None ==> res == Err::<Object<'a>, Error>(error_at(ErrorKind::ThisNotDefined, span)),
    {
        match self.stack.get(&String::from_str("this")) {
            Some(v) => Ok(v),
            None => Err(Error::new(ErrorKind::ThisNotDefined, span)),
        }
    }
}

} // verus!
