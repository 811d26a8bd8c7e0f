//! The tree of a namespace, as the parser yields it and as lowering
//! returns it.
//!
//! Both stages share these types. A lowered tree differs by what holds of it:
//! every enum field and every flag field carries its value, every interface of
//! an extension carries its version, and no extension has an implicit
//! interface left.

use vstd::prelude::*;
use vstd::string::StringExecFns;

verus! {

/// Major, minor and patch number, ordered as a triple.
pub type Version = (u64, u64, u64);

/// The types that need no declaration.
#[derive(Debug, Clone, Copy, PartialEq, Eq)]
pub enum PrimType {
    String,
    Object,
    Uuid,
    Bytes,
    Bool,
    Matrix4x4,
    F32,
    F64,
}

/// An integer type, signed or unsigned.
#[derive(Debug, Clone, Copy, PartialEq, Eq)]
pub enum IntType {
    Signed(SignedIntType),
    Unsigned(UnsignedIntType),
}

/// The unsigned integer types: four of fixed width, and for each the
/// variant of variable length.
#[derive(Debug, Clone, Copy, PartialEq, Eq)]
pub enum UnsignedIntType {
    U8,
    U16,
    U32,
    U64,
    VU8,
    VU16,
    VU32,
    VU64,
}

/// The signed integer types: four of fixed width, and for each the variant
/// of variable length.
#[derive(Debug, Clone, Copy, PartialEq, Eq)]
pub enum SignedIntType {
    I8,
    I16,
    I32,
    I64,
    VI8,
    VI16,
    VI32,
    VI64,
}

impl PrimType {
    /// The name of the type as it is written in a signature.
    pub open spec fn text(self) -> Seq<char> {
        match self {
            PrimType::String => "string"@,
            PrimType::Object => "object"@,
            PrimType::Uuid => "uuid"@,
            PrimType::Bytes => "bytes"@,
            PrimType::Bool => "bool"@,
            PrimType::Matrix4x4 => "matrix4x4"@,
            PrimType::F32 => "f32"@,
            PrimType::F64 => "f64"@,
        }
    }

    /// The name of the type as it is written in a signature.
    pub fn to_string(&self) -> (s: String)
        ensures
            s@ == self.text(),
    {
        match self {
            PrimType::String => "string".to_owned(),
            PrimType::Object => "object".to_owned(),
            PrimType::Uuid => "uuid".to_owned(),
            PrimType::Bytes => "bytes".to_owned(),
            PrimType::Bool => "bool".to_owned(),
            PrimType::Matrix4x4 => "matrix4x4".to_owned(),
            PrimType::F32 => "f32".to_owned(),
            PrimType::F64 => "f64".to_owned(),
        }
    }
}

impl UnsignedIntType {
    /// The name of the type as it is written in a signature.
    pub open spec fn text(self) -> Seq<char> {
        match self {
            UnsignedIntType::U8 => "u8"@,
            UnsignedIntType::U16 => "u16"@,
            UnsignedIntType::U32 => "u32"@,
            UnsignedIntType::U64 => "u64"@,
            UnsignedIntType::VU8 => "vu8"@,
            UnsignedIntType::VU16 => "vu16"@,
            UnsignedIntType::VU32 => "vu32"@,
            UnsignedIntType::VU64 => "vu64"@,
        }
    }

    /// The name of the type as it is written in a signature.
    pub fn to_string(&self) -> (s: String)
        ensures
            s@ == self.text(),
    {
        match self {
            UnsignedIntType::U8 => "u8".to_owned(),
            UnsignedIntType::U16 => "u16".to_owned(),
            UnsignedIntType::U32 => "u32".to_owned(),
            UnsignedIntType::U64 => "u64".to_owned(),
            UnsignedIntType::VU8 => "vu8".to_owned(),
            UnsignedIntType::VU16 => "vu16".to_owned(),
            UnsignedIntType::VU32 => "vu32".to_owned(),
            UnsignedIntType::VU64 => "vu64".to_owned(),
        }
    }
}

impl SignedIntType {
    /// The name of the type as it is written in a signature.
    pub open spec fn text(self) -> Seq<char> {
        match self {
            SignedIntType::I8 => "i8"@,
            SignedIntType::I16 => "i16"@,
            SignedIntType::I32 => "i32"@,
            SignedIntType::I64 => "i64"@,
            SignedIntType::VI8 => "vi8"@,
            SignedIntType::VI16 => "vi16"@,
            SignedIntType::VI32 => "vi32"@,
            SignedIntType::VI64 => "vi64"@,
        }
    }

    /// The name of the type as it is written in a signature.
    pub fn to_string(&self) -> (s: String)
        ensures
            s@ == self.text(),
    {
        match self {
            SignedIntType::I8 => "i8".to_owned(),
            SignedIntType::I16 => "i16".to_owned(),
            SignedIntType::I32 => "i32".to_owned(),
            SignedIntType::I64 => "i64".to_owned(),
            SignedIntType::VI8 => "vi8".to_owned(),
            SignedIntType::VI16 => "vi16".to_owned(),
            SignedIntType::VI32 => "vi32".to_owned(),
            SignedIntType::VI64 => "vi64".to_owned(),
        }
    }
}

impl IntType {
    /// The name of the type as it is written in a signature.
    pub open spec fn text(self) -> Seq<char> {
        match self {
            IntType::Signed(i) => i.text(),
            IntType::Unsigned(u) => u.text(),
        }
    }

    /// The name of the type as it is written in a signature.
    pub fn to_string(&self) -> (s: String)
        ensures
            s@ == self.text(),
    {
        match self {
            IntType::Signed(i) => i.to_string(),
            IntType::Unsigned(u) => u.to_string(),
        }
    }
}

/// A type as a signature names it.
#[derive(Debug, PartialEq)]
pub enum Type {
    Primitive(PrimType),
    /// A declared type, by its name. Nothing here looks the name up.
    Custom(String),
    Array(Box<Type>),
    Dictionary(Box<Dictionary>),
    IntType(IntType),
}

/// The key type and the value type of a dictionary.
#[derive(Debug, PartialEq)]
pub struct Dictionary {
    pub key: Type,
    pub value: Type,
}

/// What a [`Type`] stands for.
pub enum TypeView {
    Primitive(PrimType),
    Custom(Seq<char>),
    Array(Box<TypeView>),
    Dictionary(Box<DictionaryView>),
    IntType(IntType),
}

/// What a [`Dictionary`] stands for.
pub struct DictionaryView {
    pub key: TypeView,
    pub value: TypeView,
}

/// The model of a type.
pub open spec fn type_view(t: Type) -> TypeView
    decreases t,
{
    match t {
        Type::Primitive(p) => TypeView::Primitive(p),
        Type::Custom(n) => TypeView::Custom(n@),
        Type::Array(e) => TypeView::Array(Box::new(type_view(*e))),
        Type::Dictionary(d) => TypeView::Dictionary(
            Box::new(DictionaryView { key: type_view(d.key), value: type_view(d.value) }),
        ),
        Type::IntType(i) => TypeView::IntType(i),
    }
}

impl View for Type {
    type V = TypeView;

    open spec fn view(&self) -> TypeView {
        type_view(*self)
    }
}

impl View for Dictionary {
    type V = DictionaryView;

    open spec fn view(&self) -> DictionaryView {
        DictionaryView { key: self.key@, value: self.value@ }
    }
}

impl Clone for Type {
    fn clone(&self) -> (res: Self)
        ensures
            res@ == self@,
        decreases self,
    {
        match self {
            Type::Primitive(p) => Type::Primitive(*p),
            Type::Custom(n) => Type::Custom(n.clone()),
            Type::Array(e) => Type::Array(Box::new((&**e).clone())),
            Type::Dictionary(d) => Type::Dictionary(
                Box::new(Dictionary { key: d.key.clone(), value: d.value.clone() }),
            ),
            Type::IntType(i) => Type::IntType(*i),
        }
    }
}

impl Clone for Dictionary {
    fn clone(&self) -> (res: Self)
        ensures
            res@ == self@,
    {
        Dictionary { key: self.key.clone(), value: self.value.clone() }
    }
}

impl TypeView {
    /// The type as it is written in a signature: an array of `T` is `[]T`, a
    /// dictionary from `K` to `V` is `[K]V`.
    pub open spec fn text(self) -> Seq<char>
        decreases self,
    {
        match self {
            TypeView::Primitive(p) => p.text(),
            TypeView::Custom(n) => n,
            TypeView::Array(e) => "[]"@ + e.text(),
            TypeView::Dictionary(d) => "["@ + d.key.text() + "]"@ + d.value.text(),
            TypeView::IntType(i) => i.text(),
        }
    }
}

impl Type {
    /// The type as it is written in a signature.
    pub fn to_string(&self) -> (s: String)
        ensures
            s@ == self@.text(),
        decreases self,
    {
        match self {
            Type::Primitive(p) => p.to_string(),
            Type::Custom(n) => n.clone(),
            Type::Array(e) => {
                let mut s = "[]".to_owned();
                let inner = e.to_string();
                s.append(inner.as_str());
                s
            },
            Type::Dictionary(d) => {
                let mut s = "[".to_owned();
                let key = d.key.to_string();
                s.append(key.as_str());
                s.append("]");
                let value = d.value.to_string();
                s.append(value.as_str());
                s
            },
            Type::IntType(i) => i.to_string(),
        }
    }
}

/// The models of the items of a sequence, in the same order.
pub open spec fn views<T: View>(items: Seq<T>) -> Seq<T::V> {
    Seq::new(items.len(), |i: int| items[i]@)
}

/// A named argument of a method or an event.
#[derive(Debug, PartialEq)]
pub struct Arg {
    pub name: String,
    pub ty: Type,
}

/// What an [`Arg`] stands for.
pub struct ArgView {
    pub name: Seq<char>,
    pub ty: TypeView,
}

impl View for Arg {
    type V = ArgView;

    open spec fn view(&self) -> ArgView {
        ArgView { name: self.name@, ty: self.ty@ }
    }
}

impl Clone for Arg {
    fn clone(&self) -> (res: Self)
        ensures
            res@ == self@,
    {
        Arg { name: self.name.clone(), ty: self.ty.clone() }
    }
}

/// A method or an event: methods are started by the caller, events by the
/// callee. Without `ret` nothing is returned.
#[derive(Debug, PartialEq)]
pub struct Func {
    pub name: String,
    pub docs: String,
    pub args: Vec<Arg>,
    pub ret: Option<Type>,
}

/// What a [`Func`] stands for.
pub struct FuncView {
    pub name: Seq<char>,
    pub docs: Seq<char>,
    pub args: Seq<ArgView>,
    pub ret: Option<TypeView>,
}

impl View for Func {
    type V = FuncView;

    open spec fn view(&self) -> FuncView {
        FuncView {
            name: self.name@,
            docs: self.docs@,
            args: views(self.args@),
            ret: match self.ret {
                Some(t) => Some(t@),
                None => None,
            },
        }
    }
}

impl Clone for Func {
    fn clone(&self) -> (res: Self)
        ensures
            res@ == self@,
    {
        let res = Func {
            name: self.name.clone(),
            docs: self.docs.clone(),
            args: self.args.clone(),
            ret: match &self.ret {
                Some(t) => Some(t.clone()),
                None => None,
            },
        };
        proof {
            assert(views(res.args@) =~= views(self.args@));
        }
        res
    }
}

/// An interface of the namespace itself.
#[derive(Debug, PartialEq)]
pub struct Interface {
    pub name: String,
    pub docs: String,
    pub version: Version,
    pub methods: Vec<Func>,
    pub events: Vec<Func>,
}

/// What an [`Interface`] stands for.
pub struct InterfaceView {
    pub name: Seq<char>,
    pub docs: Seq<char>,
    pub version: Version,
    pub methods: Seq<FuncView>,
    pub events: Seq<FuncView>,
}

impl View for Interface {
    type V = InterfaceView;

    open spec fn view(&self) -> InterfaceView {
        InterfaceView {
            name: self.name@,
            docs: self.docs@,
            version: self.version,
            methods: views(self.methods@),
            events: views(self.events@),
        }
    }
}

impl Clone for Interface {
    fn clone(&self) -> (res: Self)
        ensures
            res@ == self@,
    {
        let res = Interface {
            name: self.name.clone(),
            docs: self.docs.clone(),
            version: self.version,
            methods: self.methods.clone(),
            events: self.events.clone(),
        };
        proof {
            assert(views(res.methods@) =~= views(self.methods@));
            assert(views(res.events@) =~= views(self.events@));
        }
        res
    }
}

/// The one unnamed interface that an extension may declare in place of a
/// list. It takes its name and its version from the extension.
#[derive(Debug, PartialEq)]
pub struct ImplicitInterface {
    pub docs: String,
    pub methods: Vec<Func>,
    pub events: Vec<Func>,
}

/// What an [`ImplicitInterface`] stands for.
pub struct ImplicitInterfaceView {
    pub docs: Seq<char>,
    pub methods: Seq<FuncView>,
    pub events: Seq<FuncView>,
}

impl View for ImplicitInterface {
    type V = ImplicitInterfaceView;

    open spec fn view(&self) -> ImplicitInterfaceView {
        ImplicitInterfaceView {
            docs: self.docs@,
            methods: views(self.methods@),
            events: views(self.events@),
        }
    }
}

impl Clone for ImplicitInterface {
    fn clone(&self) -> (res: Self)
        ensures
            res@ == self@,
    {
        let res = ImplicitInterface {
            docs: self.docs.clone(),
            methods: self.methods.clone(),
            events: self.events.clone(),
        };
        proof {
            assert(views(res.methods@) =~= views(self.methods@));
            assert(views(res.events@) =~= views(self.events@));
        }
        res
    }
}

/// An interface of an extension. Where it gives no version, it has that of
/// the extension; a lowered one always gives it.
#[derive(Debug, PartialEq)]
pub struct ExtensionInterface {
    pub name: String,
    pub docs: String,
    pub version: Option<Version>,
    pub methods: Vec<Func>,
    pub events: Vec<Func>,
}

/// What an [`ExtensionInterface`] stands for.
pub struct ExtensionInterfaceView {
    pub name: Seq<char>,
    pub docs: Seq<char>,
    pub version: Option<Version>,
    pub methods: Seq<FuncView>,
    pub events: Seq<FuncView>,
}

impl View for ExtensionInterface {
    type V = ExtensionInterfaceView;

    open spec fn view(&self) -> ExtensionInterfaceView {
        ExtensionInterfaceView {
            name: self.name@,
            docs: self.docs@,
            version: self.version,
            methods: views(self.methods@),
            events: views(self.events@),
        }
    }
}

impl Clone for ExtensionInterface {
    fn clone(&self) -> (res: Self)
        ensures
            res@ == self@,
    {
        let res = ExtensionInterface {
            name: self.name.clone(),
            docs: self.docs.clone(),
            version: self.version,
            methods: self.methods.clone(),
            events: self.events.clone(),
        };
        proof {
            assert(views(res.methods@) =~= views(self.methods@));
            assert(views(res.events@) =~= views(self.events@));
        }
        res
    }
}

/// A field of a struct.
#[derive(Debug, PartialEq)]
pub struct StructField {
    pub name: String,
    pub ty: Type,
}

/// What a [`StructField`] stands for.
pub struct StructFieldView {
    pub name: Seq<char>,
    pub ty: TypeView,
}

impl View for StructField {
    type V = StructFieldView;

    open spec fn view(&self) -> StructFieldView {
        StructFieldView { name: self.name@, ty: self.ty@ }
    }
}

impl Clone for StructField {
    fn clone(&self) -> (res: Self)
        ensures
            res@ == self@,
    {
        StructField { name: self.name.clone(), ty: self.ty.clone() }
    }
}

/// A struct: its fields in the order of declaration.
#[derive(Debug, PartialEq)]
pub struct Struct {
    pub fields: Vec<StructField>,
}

/// What a [`Struct`] stands for.
pub struct StructView {
    pub fields: Seq<StructFieldView>,
}

impl View for Struct {
    type V = StructView;

    open spec fn view(&self) -> StructView {
        StructView { fields: views(self.fields@) }
    }
}

impl Clone for Struct {
    fn clone(&self) -> (res: Self)
        ensures
            res@ == self@,
    {
        let res = Struct { fields: self.fields.clone() };
        proof {
            assert(views(res.fields@) =~= views(self.fields@));
        }
        res
    }
}

/// A field of an enum. The parser leaves `value` empty where the source
/// gives no number; a lowered field always has one.
#[derive(Debug, PartialEq)]
pub struct EnumField {
    pub name: String,
    /// Wide enough for the least `i64` and the greatest `u64`.
    pub value: Option<i128>,
}

/// What an [`EnumField`] stands for.
pub struct EnumFieldView {
    pub name: Seq<char>,
    pub value: Option<i128>,
}

impl View for EnumField {
    type V = EnumFieldView;

    open spec fn view(&self) -> EnumFieldView {
        EnumFieldView { name: self.name@, value: self.value }
    }
}

impl Clone for EnumField {
    fn clone(&self) -> (res: Self)
        ensures
            res@ == self@,
    {
        EnumField { name: self.name.clone(), value: self.value }
    }
}

/// An enum: the integer type that carries it, and its fields in the order
/// of declaration.
#[derive(Debug, PartialEq)]
pub struct Enum {
    pub backing: IntType,
    pub fields: Vec<EnumField>,
}

/// What an [`Enum`] stands for.
pub struct EnumView {
    pub backing: IntType,
    pub fields: Seq<EnumFieldView>,
}

impl View for Enum {
    type V = EnumView;

    open spec fn view(&self) -> EnumView {
        EnumView { backing: self.backing, fields: views(self.fields@) }
    }
}

impl Clone for Enum {
    fn clone(&self) -> (res: Self)
        ensures
            res@ == self@,
    {
        let res = Enum { backing: self.backing, fields: self.fields.clone() };
        proof {
            assert(views(res.fields@) =~= views(self.fields@));
        }
        res
    }
}

/// The operators of a flag expression. `BClear` clears in its left operand
/// the bits that are set in its right operand.
#[derive(Debug, Clone, Copy, PartialEq, Eq)]
pub enum Op {
    LShift,
    RShift,
    BAnd,
    BOr,
    BXor,
    BClear,
}

/// The expression that defines a flag. A number written in binary is kept
/// apart from one written in decimal, so that a page can show it as it was
/// written. `Ident` names another field of the same flags.
#[derive(Debug, PartialEq)]
pub enum Expr {
    Num(u64),
    BNum(u64),
    BinOp(Box<Expr>, Op, Box<Expr>),
    Ident(String),
}

/// What an [`Expr`] stands for.
pub enum ExprView {
    Num(u64),
    BNum(u64),
    BinOp(Box<ExprView>, Op, Box<ExprView>),
    Ident(Seq<char>),
}

/// The model of a flag expression.
pub open spec fn expr_view(e: Expr) -> ExprView
    decreases e,
{
    match e {
        Expr::Num(n) => ExprView::Num(n),
        Expr::BNum(n) => ExprView::BNum(n),
        Expr::BinOp(l, o, r) => ExprView::BinOp(
            Box::new(expr_view(*l)),
            o,
            Box::new(expr_view(*r)),
        ),
        Expr::Ident(n) => ExprView::Ident(n@),
    }
}

impl View for Expr {
    type V = ExprView;

    open spec fn view(&self) -> ExprView {
        expr_view(*self)
    }
}

impl Clone for Expr {
    fn clone(&self) -> (res: Self)
        ensures
            res@ == self@,
        decreases self,
    {
        match self {
            Expr::Num(n) => Expr::Num(*n),
            Expr::BNum(n) => Expr::BNum(*n),
            Expr::BinOp(l, o, r) => Expr::BinOp(
                Box::new((&**l).clone()),
                *o,
                Box::new((&**r).clone()),
            ),
            Expr::Ident(n) => Expr::Ident(n.clone()),
        }
    }
}

/// A field of a flags type: its name, the expression that defines it, and
/// the value of that expression, which lowering fills in.
#[derive(Debug, PartialEq)]
pub struct FlagField {
    pub name: String,
    pub expr: Expr,
    pub value: Option<u64>,
}

/// What a [`FlagField`] stands for.
pub struct FlagFieldView {
    pub name: Seq<char>,
    pub expr: ExprView,
    pub value: Option<u64>,
}

impl View for FlagField {
    type V = FlagFieldView;

    open spec fn view(&self) -> FlagFieldView {
        FlagFieldView { name: self.name@, expr: self.expr@, value: self.value }
    }
}

impl Clone for FlagField {
    fn clone(&self) -> (res: Self)
        ensures
            res@ == self@,
    {
        FlagField { name: self.name.clone(), expr: self.expr.clone(), value: self.value }
    }
}

/// A set of flags: the integer type that carries it, and its fields in the
/// order of declaration.
#[derive(Debug, PartialEq)]
pub struct Flags {
    pub backing: IntType,
    pub fields: Vec<FlagField>,
}

/// What a [`Flags`] stands for.
pub struct FlagsView {
    pub backing: IntType,
    pub fields: Seq<FlagFieldView>,
}

impl View for Flags {
    type V = FlagsView;

    open spec fn view(&self) -> FlagsView {
        FlagsView { backing: self.backing, fields: views(self.fields@) }
    }
}

impl Clone for Flags {
    fn clone(&self) -> (res: Self)
        ensures
            res@ == self@,
    {
        let res = Flags { backing: self.backing, fields: self.fields.clone() };
        proof {
            assert(views(res.fields@) =~= views(self.fields@));
        }
        res
    }
}

/// What a declared type is.
#[derive(Debug, PartialEq)]
pub enum TypeKind {
    Struct(Struct),
    Enum(Enum),
    Flags(Flags),
}

/// What a [`TypeKind`] stands for.
pub enum TypeKindView {
    Struct(StructView),
    Enum(EnumView),
    Flags(FlagsView),
}

impl View for TypeKind {
    type V = TypeKindView;

    open spec fn view(&self) -> TypeKindView {
        match self {
            TypeKind::Struct(s) => TypeKindView::Struct(s@),
            TypeKind::Enum(e) => TypeKindView::Enum(e@),
            TypeKind::Flags(f) => TypeKindView::Flags(f@),
        }
    }
}

impl Clone for TypeKind {
    fn clone(&self) -> (res: Self)
        ensures
            res@ == self@,
    {
        match self {
            TypeKind::Struct(s) => TypeKind::Struct(s.clone()),
            TypeKind::Enum(e) => TypeKind::Enum(e.clone()),
            TypeKind::Flags(f) => TypeKind::Flags(f.clone()),
        }
    }
}

/// A declared type.
#[derive(Debug, PartialEq)]
pub struct TypeDef {
    pub name: String,
    pub docs: String,
    pub kind: TypeKind,
}

/// What a [`TypeDef`] stands for.
pub struct TypeDefView {
    pub name: Seq<char>,
    pub docs: Seq<char>,
    pub kind: TypeKindView,
}

impl View for TypeDef {
    type V = TypeDefView;

    open spec fn view(&self) -> TypeDefView {
        TypeDefView { name: self.name@, docs: self.docs@, kind: self.kind@ }
    }
}

impl Clone for TypeDef {
    fn clone(&self) -> (res: Self)
        ensures
            res@ == self@,
    {
        TypeDef { name: self.name.clone(), docs: self.docs.clone(), kind: self.kind.clone() }
    }
}

/// An extension of a namespace, with interfaces and types of its own. A
/// lowered extension has no implicit interface: it stands first in
/// `interfaces`, under the name of the extension.
#[derive(Debug, PartialEq)]
pub struct Extension {
    pub name: String,
    pub version: Version,
    pub docs: String,
    pub interface: Option<ImplicitInterface>,
    pub interfaces: Vec<ExtensionInterface>,
    pub types: Vec<TypeDef>,
}

/// What an [`Extension`] stands for.
pub struct ExtensionView {
    pub name: Seq<char>,
    pub version: Version,
    pub docs: Seq<char>,
    pub interface: Option<ImplicitInterfaceView>,
    pub interfaces: Seq<ExtensionInterfaceView>,
    pub types: Seq<TypeDefView>,
}

impl View for Extension {
    type V = ExtensionView;

    open spec fn view(&self) -> ExtensionView {
        ExtensionView {
            name: self.name@,
            version: self.version,
            docs: self.docs@,
            interface: match self.interface {
                Some(i) => Some(i@),
                None => None,
            },
            interfaces: views(self.interfaces@),
            types: views(self.types@),
        }
    }
}

impl Clone for Extension {
    fn clone(&self) -> (res: Self)
        ensures
            res@ == self@,
    {
        let res = Extension {
            name: self.name.clone(),
            version: self.version,
            docs: self.docs.clone(),
            interface: match &self.interface {
                Some(i) => Some(i.clone()),
                None => None,
            },
            interfaces: self.interfaces.clone(),
            types: self.types.clone(),
        };
        proof {
            assert(views(res.interfaces@) =~= views(self.interfaces@));
            assert(views(res.types@) =~= views(self.types@));
        }
        res
    }
}

/// The root of a tree. The order of its items shows in the pages written
/// from it and means nothing else.
#[derive(Debug, PartialEq)]
pub struct Namespace {
    pub name: String,
    pub interfaces: Vec<Interface>,
    pub types: Vec<TypeDef>,
    pub extensions: Vec<Extension>,
}

/// What a [`Namespace`] stands for.
pub struct NamespaceView {
    pub name: Seq<char>,
    pub interfaces: Seq<InterfaceView>,
    pub types: Seq<TypeDefView>,
    pub extensions: Seq<ExtensionView>,
}

impl View for Namespace {
    type V = NamespaceView;

    open spec fn view(&self) -> NamespaceView {
        NamespaceView {
            name: self.name@,
            interfaces: views(self.interfaces@),
            types: views(self.types@),
            extensions: views(self.extensions@),
        }
    }
}

impl Clone for Namespace {
    fn clone(&self) -> (res: Self)
        ensures
            res@ == self@,
    {
        let res = Namespace {
            name: self.name.clone(),
            interfaces: self.interfaces.clone(),
            types: self.types.clone(),
            extensions: self.extensions.clone(),
        };
        proof {
            assert(views(res.interfaces@) =~= views(self.interfaces@));
            assert(views(res.types@) =~= views(self.types@));
            assert(views(res.extensions@) =~= views(self.extensions@));
        }
        res
    }
}

} // verus!
