//! The values of the language, the rules of its operators, and the file
//! attributes.

use vstd::prelude::*;
use vstd::string::*;

use crate::ast::OpKind;
use crate::errors::{
    msg_division_by_zero, msg_special_as_boolean, msg_special_as_integer, msg_special_mismatch,
    msg_special_negative, msg_special_operator, RuntimeError,
};
use crate::text::{
    digits, i64_to_string, int_text, octal_text, parse_i64, parse_int, same_text,
    u64_to_octal_string, u64_to_string,
};

verus! {

/// What a special value counts.
#[derive(Clone, Copy, Debug, PartialEq, Eq, Hash, Structural)]
pub enum SpecialValueKind {
    Ino,
    Mode,
    /// Both UIDs and GIDs
    Uid,
    Devno,
}

/// A number that is no integer of the language: an inode number, a mode, a
/// user or group id, a device number. Arithmetic on it makes no sense, so
/// the language refuses it.
#[derive(Clone, Copy, Debug, PartialEq, Eq, Hash, Structural)]
pub struct SpecialValue {
    val: u64,
    kind: SpecialValueKind,
}

#[derive(Debug, PartialEq, Eq, Hash)]
pub enum Value {
    Int(i64),
    String(String),
    Boolean(bool),
    Special(SpecialValue),
}

/// A value as the rules of the language see it.
pub enum ValueView {
    Int(int),
    String(Seq<char>),
    Boolean(bool),
    Special(SpecialValueKind, int),
}

impl View for Value {
    type V = ValueView;

    open spec fn view(&self) -> ValueView {
        match self {
            Value::Int(i) => ValueView::Int(*i as int),
            Value::String(s) => ValueView::String(s@),
            Value::Boolean(b) => ValueView::Boolean(*b),
            Value::Special(s) => ValueView::Special(s.spec_kind(), s.spec_val() as int),
        }
    }
}

impl Clone for Value {
    fn clone(&self) -> (r: Self)
        ensures
            r@ == self@,
    {
        match self {
            Value::Int(i) => Value::Int(*i),
            Value::String(s) => Value::String(s.clone()),
            Value::Boolean(b) => Value::Boolean(*b),
            Value::Special(s) => Value::Special(*s),
        }
    }
}

/// Two's complement wrapping of an integer into the range of `i64`.
pub open spec fn wrap64(x: int) -> int {
    if (x % 0x1_0000_0000_0000_0000) > (i64::MAX as int) {
        (x % 0x1_0000_0000_0000_0000) - 0x1_0000_0000_0000_0000
    } else {
        x % 0x1_0000_0000_0000_0000
    }
}

/// Division that rounds towards zero; zero where the divisor is zero.
pub open spec fn trunc_div(a: int, b: int) -> int {
    if b == 0 {
        0
    } else if a >= 0 && b > 0 {
        a / b
    } else if a < 0 && b < 0 {
        (-a) / (-b)
    } else if a < 0 {
        -((-a) / b)
    } else {
        -(a / (-b))
    }
}

/// Whether a value counts as true: a nonzero integer, a nonempty string, a
/// true boolean. A special value has no truth value.
pub open spec fn truthy(v: ValueView) -> Result<bool, Seq<char>> {
    match v {
        ValueView::Int(i) => Ok(i != 0),
        ValueView::String(s) => Ok(s.len() != 0),
        ValueView::Boolean(b) => Ok(b),
        ValueView::Special(_, _) => Err(msg_special_as_boolean()),
    }
}

/// The integer that a value stands for: itself, the number that a string
/// reads as (zero if it reads as none), one or zero for a boolean. A special
/// value stands for none.
pub open spec fn to_integer(v: ValueView) -> Result<int, Seq<char>> {
    match v {
        ValueView::Int(i) => Ok(i),
        ValueView::String(s) => match parse_int(s) {
            Some(i) => Ok(i),
            None => Ok(0),
        },
        ValueView::Boolean(b) => Ok(
            if b {
                1
            } else {
                0
            },
        ),
        ValueView::Special(_, _) => Err(msg_special_as_integer()),
    }
}

pub open spec fn is_arithmetic(op: OpKind) -> bool {
    op == OpKind::Plus || op == OpKind::Minus || op == OpKind::Multiply || op == OpKind::Divide
}

pub open spec fn is_ordering(op: OpKind) -> bool {
    op == OpKind::Greater || op == OpKind::GreaterEqual || op == OpKind::Less || op
        == OpKind::LessEqual
}

pub open spec fn is_logical(op: OpKind) -> bool {
    op == OpKind::And || op == OpKind::Or
}

/// The result of an arithmetic operator on two integers. Sums, differences
/// and products wrap; a quotient rounds towards zero; there is no quotient
/// by zero.
pub open spec fn arithmetic(l: int, r: int, op: OpKind) -> Result<ValueView, Seq<char>> {
    match op {
        OpKind::Plus => Ok(ValueView::Int(wrap64(l + r))),
        OpKind::Minus => Ok(ValueView::Int(wrap64(l - r))),
        OpKind::Multiply => Ok(ValueView::Int(wrap64(l * r))),
        _ => if r == 0 {
            Err(msg_division_by_zero())
        } else {
            Ok(ValueView::Int(wrap64(trunc_div(l, r))))
        },
    }
}

pub open spec fn ordering(l: int, r: int, op: OpKind) -> bool {
    match op {
        OpKind::Greater => l > r,
        OpKind::GreaterEqual => l >= r,
        OpKind::Less => l < r,
        _ => l <= r,
    }
}

/// `==` with a special value on one side: equal to a special value of the
/// same kind and number, or to a nonnegative integer of the same number.
/// With anything else there is no comparison.
pub open spec fn special_equality(kind: SpecialValueKind, val: int, other: ValueView) -> Result<
    ValueView,
    Seq<char>,
> {
    match other {
        ValueView::Int(v) => if v < 0 {
            Err(msg_special_negative())
        } else {
            Ok(ValueView::Boolean(val == v))
        },
        ValueView::Special(k, v) => if k == kind {
            Ok(ValueView::Boolean(val == v))
        } else {
            Err(msg_special_mismatch())
        },
        _ => Err(msg_special_mismatch()),
    }
}

/// `==`: structural, unless one side is a special value.
pub open spec fn equality(l: ValueView, r: ValueView) -> Result<ValueView, Seq<char>> {
    match l {
        ValueView::Special(k, v) => special_equality(k, v, r),
        _ => match r {
            ValueView::Special(k, v) => special_equality(k, v, l),
            _ => Ok(ValueView::Boolean(l == r)),
        },
    }
}

/// The result of a binary operator. The left operand is coerced first, so
/// where both operands are in error the left one's error is the result.
pub open spec fn binary_op(l: ValueView, r: ValueView, op: OpKind) -> Result<ValueView, Seq<char>> {
    if is_arithmetic(op) {
        match to_integer(l) {
            Err(m) => Err(m),
            Ok(li) => match to_integer(r) {
                Err(m) => Err(m),
                Ok(ri) => arithmetic(li, ri, op),
            },
        }
    } else if is_ordering(op) {
        match to_integer(l) {
            Err(m) => Err(m),
            Ok(li) => match to_integer(r) {
                Err(m) => Err(m),
                Ok(ri) => Ok(ValueView::Boolean(ordering(li, ri, op))),
            },
        }
    } else if is_logical(op) {
        match truthy(l) {
            Err(m) => Err(m),
            Ok(lb) => match truthy(r) {
                Err(m) => Err(m),
                Ok(rb) => Ok(
                    ValueView::Boolean(
                        if op == OpKind::And {
                            lb && rb
                        } else {
                            lb || rb
                        },
                    ),
                ),
            },
        }
    } else {
        equality(l, r)
    }
}

/// What `Debug`, as the standard library derives it for `Value`, writes for
/// a value: the name of the variant, and in parentheses the number, the
/// string in quotes with its escapes, the boolean, or the fields of the
/// special value.
pub uninterp spec fn value_debug(v: ValueView) -> Seq<char>;

/// `Debug` formatting of a value through `format!`. The text depends on the
/// value alone, so it is given the name `value_debug`; nothing else is
/// claimed of it.
#[verifier::external_body]
pub(crate) fn value_debug_text(v: &Value) -> (r: String)
    ensures
        r@ == value_debug(v@),
{
    format!("{:?}", v)
}

/// The text that `print` writes for a value.
pub open spec fn value_text(v: ValueView) -> Seq<char> {
    match v {
        ValueView::Int(i) => int_text(i),
        ValueView::String(s) => s,
        ValueView::Boolean(b) => if b {
            "True"@
        } else {
            "False"@
        },
        ValueView::Special(k, n) => if k == SpecialValueKind::Mode {
            octal_text(n as nat)
        } else {
            digits(n as nat, 10)
        },
    }
}

pub open spec fn bool_result_view(r: Result<bool, RuntimeError>) -> Result<bool, Seq<char>> {
    match r {
        Ok(b) => Ok(b),
        Err(e) => Err(e@),
    }
}

pub open spec fn int_result_view(r: Result<i64, RuntimeError>) -> Result<int, Seq<char>> {
    match r {
        Ok(i) => Ok(i as int),
        Err(e) => Err(e@),
    }
}

pub open spec fn value_result_view(r: Result<Value, RuntimeError>) -> Result<ValueView, Seq<char>> {
    match r {
        Ok(v) => Ok(v@),
        Err(e) => Err(e@),
    }
}

impl Value {
    pub fn is_truthy(self) -> (r: Result<bool, RuntimeError>)
        ensures
            bool_result_view(r) == truthy(self@),
    {
        match self {
            Value::Int(i) => Ok(i != 0),
            Value::String(s) => Ok(s.as_str().unicode_len() != 0),
            Value::Boolean(b) => Ok(b),
            Value::Special(_) => Err(
                RuntimeError::new("Cannot evaluate a special value as a boolean"),
            ),
        }
    }

    pub fn to_signed_int(self) -> (r: Result<i64, RuntimeError>)
        ensures
            int_result_view(r) == to_integer(self@),
    {
        match self {
            Value::Int(i) => Ok(i),
            Value::String(s) => match parse_i64(s.as_str()) {
                Some(i) => Ok(i),
                None => Ok(0),
            },
            Value::Boolean(b) => {
                if b {
                    Ok(1)
                } else {
                    Ok(0)
                }
            },
            Value::Special(_) => Err(
                RuntimeError::new("Cannot evaluate a special value as an integer"),
            ),
        }
    }

    pub fn binary_op(self, other: Value, op: OpKind) -> (r: Result<Value, RuntimeError>)
        ensures
            value_result_view(r) == binary_op(self@, other@, op),
    {
        match op {
            OpKind::Plus | OpKind::Minus | OpKind::Multiply | OpKind::Divide => Self::integer_op(
                self,
                other,
                op,
            ),
            OpKind::Greater | OpKind::GreaterEqual | OpKind::Less | OpKind::LessEqual => {
                Self::int_to_bool_op(self, other, op)
            },
            OpKind::And | OpKind::Or => Self::logical_op(self, other, op),
            OpKind::EqualEqual => Self::equality(op, self, other),
        }
    }

    fn int_to_bool_op(l: Value, r: Value, op: OpKind) -> (res: Result<Value, RuntimeError>)
        requires
            is_ordering(op),
        ensures
            value_result_view(res) == binary_op(l@, r@, op),
    {
        let l = l.to_signed_int()?;
        let r = r.to_signed_int()?;
        let b = match op {
            OpKind::Greater => l > r,
            OpKind::GreaterEqual => l >= r,
            OpKind::Less => l < r,
            _ => l <= r,
        };
        Ok(Value::Boolean(b))
    }

    fn integer_op(l: Value, r: Value, op: OpKind) -> (res: Result<Value, RuntimeError>)
        requires
            is_arithmetic(op),
        ensures
            value_result_view(res) == binary_op(l@, r@, op),
    {
        let l = l.to_signed_int()?;
        let r = r.to_signed_int()?;
        match op {
            OpKind::Plus => Ok(Value::Int(l.wrapping_add(r))),
            OpKind::Minus => Ok(Value::Int(l.wrapping_sub(r))),
            OpKind::Multiply => Ok(Value::Int(l.wrapping_mul(r))),
            _ => {
                if r == 0 {
                    Err(RuntimeError::new("Division by zero"))
                } else {
                    match l.checked_div(r) {
                        Some(q) => Ok(Value::Int(q)),
                        None => Ok(Value::Int(i64::MIN)),
                    }
                }
            },
        }
    }

    fn logical_op(l: Value, r: Value, op: OpKind) -> (res: Result<Value, RuntimeError>)
        requires
            is_logical(op),
        ensures
            value_result_view(res) == binary_op(l@, r@, op),
    {
        let l = l.is_truthy()?;
        let r = r.is_truthy()?;
        let b = match op {
            OpKind::And => l && r,
            _ => l || r,
        };
        Ok(Value::Boolean(b))
    }

    fn equality(op: OpKind, val1: Value, val2: Value) -> (res: Result<Value, RuntimeError>)
        requires
            op == OpKind::EqualEqual,
        ensures
            value_result_view(res) == binary_op(val1@, val2@, op),
    {
        if let Value::Special(s) = val1 {
            return s.binary_op(op, val2);
        }
        if let Value::Special(s) = val2 {
            return s.binary_op(op, val1);
        }
        Ok(Value::Boolean(val1.same(&val2)))
    }

    /// Whether two values are the same value: of the same variant, with the
    /// same content.
    pub fn same(&self, other: &Value) -> (r: bool)
        ensures
            r == (self@ == other@),
    {
        match self {
            Value::Int(a) => match other {
                Value::Int(b) => *a == *b,
                _ => false,
            },
            Value::String(a) => match other {
                Value::String(b) => same_text(a.as_str(), b.as_str()),
                _ => false,
            },
            Value::Boolean(a) => match other {
                Value::Boolean(b) => *a == *b,
                _ => false,
            },
            Value::Special(a) => match other {
                Value::Special(b) => a.val == b.val && a.kind == b.kind,
                _ => false,
            },
        }
    }

    /// The text that `print` writes for this value.
    pub fn to_text(&self) -> (r: String)
        ensures
            r@ == value_text(self@),
    {
        match self {
            Value::Int(i) => i64_to_string(*i),
            Value::String(s) => s.clone(),
            Value::Boolean(b) => if *b {
                "True".to_owned()
            } else {
                "False".to_owned()
            },
            Value::Special(s) => s.to_text(),
        }
    }
}

impl SpecialValue {
    pub closed spec fn spec_val(&self) -> u64 {
        self.val
    }

    pub closed spec fn spec_kind(&self) -> SpecialValueKind {
        self.kind
    }

    pub fn new(val: u64, kind: SpecialValueKind) -> (r: Value)
        ensures
            r@ == ValueView::Special(kind, val as int),
    {
        Value::Special(SpecialValue { val, kind })
    }

    pub fn binary_op(self, op: OpKind, other: Value) -> (r: Result<Value, RuntimeError>)
        ensures
            op == OpKind::EqualEqual ==> value_result_view(r) == special_equality(
                self.spec_kind(),
                self.spec_val() as int,
                other@,
            ),
            op != OpKind::EqualEqual ==> value_result_view(r) == Err::<ValueView, Seq<char>>(
                msg_special_operator(),
            ),
    {
        match op {
            OpKind::EqualEqual => self.equality(other),
            _ => Err(RuntimeError::new("Cannot apply this operator to a special value")),
        }
    }

    pub fn equality(self, other: Value) -> (r: Result<Value, RuntimeError>)
        ensures
            value_result_view(r) == special_equality(
                self.spec_kind(),
                self.spec_val() as int,
                other@,
            ),
    {
        match other {
            Value::Int(v) => {
                if v < 0 {
                    Err(RuntimeError::new("Cannot compare a special value to a negative integer"))
                } else {
                    Ok(Value::Boolean(self.val == v as u64))
                }
            },
            Value::Special(s) => {
                if self.kind == s.kind {
                    Ok(Value::Boolean(self.val == s.val))
                } else {
                    Err(
                        RuntimeError::new(
                            "Cannot compare a special value to a value of another type",
                        ),
                    )
                }
            },
            _ => Err(
                RuntimeError::new("Cannot compare a special value to a value of another type"),
            ),
        }
    }

    /// A mode is written in octal, the other kinds in decimal.
    pub fn to_text(&self) -> (r: String)
        ensures
            r@ == value_text(ValueView::Special(self.spec_kind(), self.spec_val() as int)),
    {
        match self.kind {
            SpecialValueKind::Mode => u64_to_octal_string(self.val),
            _ => u64_to_string(self.val),
        }
    }
}

/// Attributes are file metadata.
#[derive(Clone, Copy, Debug, PartialEq, Eq, Structural)]
pub enum Attribute {
    BlkSize,
    Blocks,
    /// Device number for the device the file resides on
    Dev,
    /// Inode number
    Ino,
    Mode,
    /// Filename
    Name,
    NLink,
    Owner,
    Group,
    /// Full path
    Path,
    /// Device number of the file itself (special files)
    RDev,
    Size,
    Atime,
    Mtime,
    Ctime,
    Type,
}

/// The dotted name by which a program refers to an attribute.
pub open spec fn attribute_name(a: Attribute) -> Seq<char> {
    match a {
        Attribute::BlkSize => ".blksize"@,
        Attribute::Blocks => ".blocks"@,
        Attribute::Dev => ".dev"@,
        Attribute::Ino => ".ino"@,
        Attribute::Mode => ".mode"@,
        Attribute::Name => ".name"@,
        Attribute::NLink => ".nlink"@,
        Attribute::Owner => ".owner"@,
        Attribute::Group => ".group"@,
        Attribute::Path => ".path"@,
        Attribute::RDev => ".rdev"@,
        Attribute::Size => ".size"@,
        Attribute::Atime => ".atime"@,
        Attribute::Mtime => ".mtime"@,
        Attribute::Ctime => ".ctime"@,
        Attribute::Type => ".type"@,
    }
}

/// The name of an attribute as a variant, which is how it is written where a
/// program is shown as a tree.
pub open spec fn attribute_variant_name(a: Attribute) -> Seq<char> {
    match a {
        Attribute::BlkSize => "BlkSize"@,
        Attribute::Blocks => "Blocks"@,
        Attribute::Dev => "Dev"@,
        Attribute::Ino => "Ino"@,
        Attribute::Mode => "Mode"@,
        Attribute::Name => "Name"@,
        Attribute::NLink => "NLink"@,
        Attribute::Owner => "Owner"@,
        Attribute::Group => "Group"@,
        Attribute::Path => "Path"@,
        Attribute::RDev => "RDev"@,
        Attribute::Size => "Size"@,
        Attribute::Atime => "Atime"@,
        Attribute::Mtime => "Mtime"@,
        Attribute::Ctime => "Ctime"@,
        Attribute::Type => "Type"@,
    }
}

/// Whether an attribute is read from the metadata of the file, that is,
/// whether it is any attribute but the name and the path.
pub open spec fn attribute_needs_metadata(a: Attribute) -> bool {
    a != Attribute::Name && a != Attribute::Path
}

/// The attribute that a dotted name stands for, if it stands for one.
pub open spec fn attribute_named(name: Seq<char>) -> Option<Attribute> {
    if name == ".blksize"@ {
        Some(Attribute::BlkSize)
    } else if name == ".blocks"@ {
        Some(Attribute::Blocks)
    } else if name == ".dev"@ {
        Some(Attribute::Dev)
    } else if name == ".ino"@ {
        Some(Attribute::Ino)
    } else if name == ".mode"@ {
        Some(Attribute::Mode)
    } else if name == ".name"@ {
        Some(Attribute::Name)
    } else if name == ".nlink"@ {
        Some(Attribute::NLink)
    } else if name == ".owner"@ {
        Some(Attribute::Owner)
    } else if name == ".group"@ {
        Some(Attribute::Group)
    } else if name == ".path"@ {
        Some(Attribute::Path)
    } else if name == ".rdev"@ {
        Some(Attribute::RDev)
    } else if name == ".size"@ {
        Some(Attribute::Size)
    } else if name == ".atime"@ {
        Some(Attribute::Atime)
    } else if name == ".mtime"@ {
        Some(Attribute::Mtime)
    } else if name == ".ctime"@ {
        Some(Attribute::Ctime)
    } else if name == ".type"@ {
        Some(Attribute::Type)
    } else {
        None
    }
}

impl Attribute {
    /// The attribute with the given dotted name, if there is one.
    pub fn from_str(a: &str) -> (r: Option<Attribute>)
        ensures
            r == attribute_named(a@),
            r matches Some(attr) ==> attribute_name(attr) == a@,
            r is None ==> forall|attr: Attribute| attribute_name(attr) != a@,
    {
        let r = if same_text(a, ".blksize") {
            Some(Attribute::BlkSize)
        } else if same_text(a, ".blocks") {
            Some(Attribute::Blocks)
        } else if same_text(a, ".dev") {
            Some(Attribute::Dev)
        } else if same_text(a, ".ino") {
            Some(Attribute::Ino)
        } else if same_text(a, ".mode") {
            Some(Attribute::Mode)
        } else if same_text(a, ".name") {
            Some(Attribute::Name)
        } else if same_text(a, ".nlink") {
            Some(Attribute::NLink)
        } else if same_text(a, ".owner") {
            Some(Attribute::Owner)
        } else if same_text(a, ".group") {
            Some(Attribute::Group)
        } else if same_text(a, ".path") {
            Some(Attribute::Path)
        } else if same_text(a, ".rdev") {
            Some(Attribute::RDev)
        } else if same_text(a, ".size") {
            Some(Attribute::Size)
        } else if same_text(a, ".atime") {
            Some(Attribute::Atime)
        } else if same_text(a, ".mtime") {
            Some(Attribute::Mtime)
        } else if same_text(a, ".ctime") {
            Some(Attribute::Ctime)
        } else if same_text(a, ".type") {
            Some(Attribute::Type)
        } else {
            None
        };
        proof {
            if r is None {
                assert forall|attr: Attribute| attribute_name(attr) != a@ by {
                    match attr {
                        Attribute::BlkSize => {},
                        Attribute::Blocks => {},
                        Attribute::Dev => {},
                        Attribute::Ino => {},
                        Attribute::Mode => {},
                        Attribute::Name => {},
                        Attribute::NLink => {},
                        Attribute::Owner => {},
                        Attribute::Group => {},
                        Attribute::Path => {},
                        Attribute::RDev => {},
                        Attribute::Size => {},
                        Attribute::Atime => {},
                        Attribute::Mtime => {},
                        Attribute::Ctime => {},
                        Attribute::Type => {},
                    }
                }
            }
        }
        r
    }

    /// The name of the attribute as a variant.
    pub fn variant_name(&self) -> (r: String)
        ensures
            r@ == attribute_variant_name(*self),
    {
        match self {
            Attribute::BlkSize => "BlkSize".to_owned(),
            Attribute::Blocks => "Blocks".to_owned(),
            Attribute::Dev => "Dev".to_owned(),
            Attribute::Ino => "Ino".to_owned(),
            Attribute::Mode => "Mode".to_owned(),
            Attribute::Name => "Name".to_owned(),
            Attribute::NLink => "NLink".to_owned(),
            Attribute::Owner => "Owner".to_owned(),
            Attribute::Group => "Group".to_owned(),
            Attribute::Path => "Path".to_owned(),
            Attribute::RDev => "RDev".to_owned(),
            Attribute::Size => "Size".to_owned(),
            Attribute::Atime => "Atime".to_owned(),
            Attribute::Mtime => "Mtime".to_owned(),
            Attribute::Ctime => "Ctime".to_owned(),
            Attribute::Type => "Type".to_owned(),
        }
    }

    pub fn needs_metadata(&self) -> (r: bool)
        ensures
            r == attribute_needs_metadata(*self),
    {
        match self {
            Attribute::Name => false,
            Attribute::Path => false,
            _ => true,
        }
    }
}

/// No two attributes share a name, so a name stands for at most one.
pub proof fn attribute_names_are_distinct(a: Attribute, b: Attribute)
    requires
        a != b,
    ensures
        attribute_name(a) != attribute_name(b),
{
    reveal_strlit(".blksize");
    reveal_strlit(".blocks");
    reveal_strlit(".dev");
    reveal_strlit(".ino");
    reveal_strlit(".mode");
    reveal_strlit(".name");
    reveal_strlit(".nlink");
    reveal_strlit(".owner");
    reveal_strlit(".group");
    reveal_strlit(".path");
    reveal_strlit(".rdev");
    reveal_strlit(".size");
    reveal_strlit(".atime");
    reveal_strlit(".mtime");
    reveal_strlit(".ctime");
    reveal_strlit(".type");
    let x = attribute_name(a);
    let y = attribute_name(b);
    if x.len() == y.len() {
        assert(x[1] != y[1] || x[2] != y[2] || x[3] != y[3]);
    }
}

} // verus!
