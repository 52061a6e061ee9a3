//! The attributes of `#[derive(Save, Restore)]`: what `#[save(...)]` on a
//! field asks for, the `#[repr(...)]` of an enum, and which attributes are
//! in error. Each attribute's items are read in order; the first item that
//! is not understood makes that attribute an error and ends it. Errors of
//! several attributes are all reported.

use vstd::prelude::*;

verus! {

/// One item of a `#[save(...)]` attribute.
pub enum SaveMeta {
    /// `rename = "name"`
    Rename(String),
    /// `alias = "name"`
    Alias(String),
    /// `flatten`
    Flatten,
    /// `skip`
    Skip,
    /// `skip_save`
    SkipSave,
    /// `skip_restore`
    SkipRestore,
    /// `global`
    Global,
    /// An unexpected or malformed item.
    Invalid,
}

/// What the `#[save(...)]` attributes of a field ask for.
pub struct FieldAttrs {
    pub rename: Option<String>,
    pub alias: Vec<String>,
    pub flatten: bool,
    pub skip_save: bool,
    pub skip_restore: bool,
    pub global: bool,
}

/// `FieldAttrs` as plain values.
pub struct FieldAttrsView {
    pub rename: Option<Seq<char>>,
    pub alias: Seq<Seq<char>>,
    pub flatten: bool,
    pub skip_save: bool,
    pub skip_restore: bool,
    pub global: bool,
}

impl View for FieldAttrs {
    type V = FieldAttrsView;

    open spec fn view(&self) -> FieldAttrsView {
        FieldAttrsView {
            rename: match self.rename {
                Some(s) => Some(s@),
                None => None,
            },
            alias: self.alias@.map_values(|s: String| s@),
            flatten: self.flatten,
            skip_save: self.skip_save,
            skip_restore: self.skip_restore,
            global: self.global,
        }
    }
}

/// No attribute asks for anything.
pub open spec fn default_field_attrs() -> FieldAttrsView {
    FieldAttrsView {
        rename: None,
        alias: Seq::empty(),
        flatten: false,
        skip_save: false,
        skip_restore: false,
        global: false,
    }
}

/// What one understood item does.
pub open spec fn apply_meta(a: FieldAttrsView, m: SaveMeta) -> FieldAttrsView {
    match m {
        SaveMeta::Rename(s) => FieldAttrsView { rename: Some(s@), ..a },
        SaveMeta::Alias(s) => FieldAttrsView { alias: a.alias.push(s@), ..a },
        SaveMeta::Flatten => FieldAttrsView { flatten: true, ..a },
        SaveMeta::Skip => FieldAttrsView { skip_save: true, skip_restore: true, ..a },
        SaveMeta::SkipSave => FieldAttrsView { skip_save: true, ..a },
        SaveMeta::SkipRestore => FieldAttrsView { skip_restore: true, ..a },
        SaveMeta::Global => FieldAttrsView { global: true, ..a },
        SaveMeta::Invalid => a,
    }
}

/// Reads the items of one attribute: the settings after them, and whether
/// every item was understood.
pub open spec fn apply_attr(a: FieldAttrsView, metas: Seq<SaveMeta>) -> (FieldAttrsView, bool)
    decreases metas.len(),
{
    if metas.len() == 0 {
        (a, true)
    } else if metas[0] is Invalid {
        (a, false)
    } else {
        apply_attr(apply_meta(a, metas[0]), metas.drop_first())
    }
}

/// Reads attributes in order: the settings after them, and the indices of
/// the attributes in error.
pub open spec fn apply_attrs(attrs: Seq<Seq<SaveMeta>>) -> (FieldAttrsView, Seq<usize>)
    decreases attrs.len(),
{
    if attrs.len() == 0 {
        (default_field_attrs(), Seq::empty())
    } else {
        let (a, errs) = apply_attrs(attrs.drop_last());
        let (a2, ok) = apply_attr(a, attrs.last());
        (a2, if ok {
            errs
        } else {
            errs.push((attrs.len() - 1) as usize)
        })
    }
}

impl FieldAttrs {
    /// No attribute asks for anything.
    pub fn new() -> (r: FieldAttrs)
        ensures
            r@ == default_field_attrs(),
    {
        let r = FieldAttrs {
            rename: None,
            alias: Vec::new(),
            flatten: false,
            skip_save: false,
            skip_restore: false,
            global: false,
        };
        assert(r@.alias =~= Seq::<Seq<char>>::empty());
        r
    }

    fn apply(&mut self, m: &SaveMeta)
        requires
            !(m is Invalid),
        ensures
            final(self)@ == apply_meta(old(self)@, *m),
    {
        match m {
            SaveMeta::Rename(s) => {
                self.rename = Some(s.clone());
            },
            SaveMeta::Alias(s) => {
                let ghost before = self.alias@;
                self.alias.push(s.clone());
                assert(self.alias@.map_values(|s: String| s@) =~= before.map_values(|s: String| s@).push(s@));
            },
            SaveMeta::Flatten => {
                self.flatten = true;
            },
            SaveMeta::Skip => {
                self.skip_save = true;
                self.skip_restore = true;
            },
            SaveMeta::SkipSave => {
                self.skip_save = true;
            },
            SaveMeta::SkipRestore => {
                self.skip_restore = true;
            },
            SaveMeta::Global => {
                self.global = true;
            },
            SaveMeta::Invalid => {},
        }
    }

    fn apply_attr(&mut self, metas: &Vec<SaveMeta>) -> (ok: bool)
        ensures
            (final(self)@, ok) == apply_attr(old(self)@, metas@),
    {
        let mut i: usize = 0;
        assert(metas@.skip(0) =~= metas@);
        while i < metas.len()
            invariant
                i <= metas@.len(),
                apply_attr(old(self)@, metas@) == apply_attr(self@, metas@.skip(i as int)),
            decreases metas.len() - i,
        {
            assert(metas@.skip(i as int)[0] == metas@[i as int]);
            if let SaveMeta::Invalid = &metas[i] {
                return false;
            }
            self.apply(&metas[i]);
            assert(metas@.skip(i as int).drop_first() =~= metas@.skip(i + 1));
            i += 1;
        }
        true
    }

    /// Reads the `#[save(...)]` attributes of a field, each given as its
    /// items. On success, what they ask for; otherwise the indices of the
    /// attributes in error.
    pub fn parse(attrs: &Vec<Vec<SaveMeta>>) -> (r: Result<FieldAttrs, Vec<usize>>)
        ensures
            match r {
                Ok(a) => apply_attrs(attrs@.map_values(|v: Vec<SaveMeta>| v@)).1.len() == 0 && a@
                    == apply_attrs(attrs@.map_values(|v: Vec<SaveMeta>| v@)).0,
                Err(e) => apply_attrs(attrs@.map_values(|v: Vec<SaveMeta>| v@)).1.len() > 0 && e@
                    == apply_attrs(attrs@.map_values(|v: Vec<SaveMeta>| v@)).1,
            },
    {
        let ghost all = attrs@.map_values(|v: Vec<SaveMeta>| v@);
        let mut ret = FieldAttrs::new();
        let mut errors: Vec<usize> = Vec::new();
        let mut i: usize = 0;
        assert(all.take(0) =~= Seq::<Seq<SaveMeta>>::empty());
        while i < attrs.len()
            invariant
                all == attrs@.map_values(|v: Vec<SaveMeta>| v@),
                i <= attrs@.len(),
                (ret@, errors@) == apply_attrs(all.take(i as int)),
            decreases attrs.len() - i,
        {
            assert(all.take(i + 1).drop_last() =~= all.take(i as int));
            assert(all.take(i + 1).last() == attrs@[i as int]@);
            let ok = ret.apply_attr(&attrs[i]);
            if !ok {
                errors.push(i);
            }
            i += 1;
        }
        assert(all.take(i as int) =~= all);
        if errors.len() == 0 {
            Ok(ret)
        } else {
            Err(errors)
        }
    }
}

/// An attribute on an enum that the derive reads.
pub enum EnumAttr {
    /// `#[repr(...)]`: the integer type named, or `None` when it is not a
    /// list holding one name.
    Repr(Option<String>),
    /// `#[save(...)]` with this many items; no item is understood yet.
    Save(usize),
}

/// What the attributes of an enum say: the integer type of its
/// discriminant, if `#[repr(...)]` names one (the last one counts).
pub struct EnumAttrs {
    pub repr: Option<String>,
}

/// The `repr` after reading attributes in order, and the indices of the
/// attributes in error.
pub open spec fn enum_attrs_spec(attrs: Seq<EnumAttr>) -> (Option<Seq<char>>, Seq<usize>)
    decreases attrs.len(),
{
    if attrs.len() == 0 {
        (None, Seq::empty())
    } else {
        let (repr, errs) = enum_attrs_spec(attrs.drop_last());
        let k = (attrs.len() - 1) as usize;
        match attrs.last() {
            EnumAttr::Repr(Some(s)) => (Some(s@), errs),
            EnumAttr::Repr(None) => (repr, errs.push(k)),
            EnumAttr::Save(n) => (repr, if n > 0 {
                errs.push(k)
            } else {
                errs
            }),
        }
    }
}

impl EnumAttrs {
    /// Reads the attributes of an enum. On success, the `repr` named;
    /// otherwise the indices of the attributes in error.
    pub fn parse(attrs: &Vec<EnumAttr>) -> (r: Result<EnumAttrs, Vec<usize>>)
        ensures
            match r {
                Ok(a) => enum_attrs_spec(attrs@).1.len() == 0 && match a.repr {
                    Some(s) => enum_attrs_spec(attrs@).0 == Some(s@),
                    None => enum_attrs_spec(attrs@).0 is None,
                },
                Err(e) => enum_attrs_spec(attrs@).1.len() > 0 && e@ == enum_attrs_spec(attrs@).1,
            },
    {
        let mut repr: Option<String> = None;
        let mut errors: Vec<usize> = Vec::new();
        let mut i: usize = 0;
        assert(attrs@.take(0) =~= Seq::<EnumAttr>::empty());
        while i < attrs.len()
            invariant
                i <= attrs@.len(),
                errors@ == enum_attrs_spec(attrs@.take(i as int)).1,
                match repr {
                    Some(s) => enum_attrs_spec(attrs@.take(i as int)).0 == Some(s@),
                    None => enum_attrs_spec(attrs@.take(i as int)).0 is None,
                },
            decreases attrs.len() - i,
        {
            assert(attrs@.take(i + 1).drop_last() =~= attrs@.take(i as int));
            assert(attrs@.take(i + 1).last() == attrs@[i as int]);
            match &attrs[i] {
                EnumAttr::Repr(Some(s)) => {
                    repr = Some(s.clone());
                },
                EnumAttr::Repr(None) => {
                    errors.push(i);
                },
                EnumAttr::Save(n) => {
                    if *n > 0 {
                        errors.push(i);
                    }
                },
            }
            i += 1;
        }
        assert(attrs@.take(i as int) =~= attrs@);
        if errors.len() == 0 {
            Ok(EnumAttrs { repr })
        } else {
            Err(errors)
        }
    }
}

/// The indices of the `#[save(...)]` attributes of a struct or a variant
/// that hold items; none is understood yet.
pub open spec fn plain_attr_errors(items: Seq<usize>) -> Seq<usize>
    decreases items.len(),
{
    if items.len() == 0 {
        Seq::empty()
    } else {
        let errs = plain_attr_errors(items.drop_last());
        if items.last() > 0 {
            errs.push((items.len() - 1) as usize)
        } else {
            errs
        }
    }
}

/// Checks the `#[save(...)]` attributes of a struct or of an enum variant,
/// each given as its number of items: an attribute with any item is in
/// error. Returns the indices of the attributes in error.
pub fn check_plain_attrs(items: &Vec<usize>) -> (r: Vec<usize>)
    ensures
        r@ == plain_attr_errors(items@),
{
    let mut errors: Vec<usize> = Vec::new();
    let mut i: usize = 0;
    assert(items@.take(0) =~= Seq::<usize>::empty());
    while i < items.len()
        invariant
            i <= items@.len(),
            errors@ == plain_attr_errors(items@.take(i as int)),
        decreases items.len() - i,
    {
        assert(items@.take(i + 1).drop_last() =~= items@.take(i as int));
        if items[i] > 0 {
            errors.push(i);
        }
        i += 1;
    }
    assert(items@.take(i as int) =~= items@);
    errors
}

/// The discriminant of an enum variant as the derive writes it: the last
/// explicit discriminant at or before the variant (given by the index of
/// its variant) plus the variant's distance from it, or just the variant's
/// index when no variant so far has an explicit discriminant.
#[derive(Copy, Clone, Debug, PartialEq, Eq, Structural)]
pub enum Discriminant {
    /// The explicit discriminant of variant `.0` itself.
    Base(usize),
    /// The explicit discriminant of variant `.0` plus `.1`.
    BasePlus(usize, u32),
    /// The number `.0`.
    Offset(u32),
}

/// The index of the last variant before `i` (`i` excluded) with an
/// explicit discriminant.
pub open spec fn last_explicit(explicit: Seq<bool>, i: int) -> Option<int>
    decreases i,
{
    if i <= 0 {
        None
    } else if explicit[i - 1] {
        Some(i - 1)
    } else {
        last_explicit(explicit, i - 1)
    }
}

/// The discriminant that the derive gives variant `i`.
pub open spec fn spec_discriminant(explicit: Seq<bool>, i: int) -> Discriminant {
    match last_explicit(explicit, i + 1) {
        Some(b) => if b == i {
            Discriminant::Base(b as usize)
        } else {
            Discriminant::BasePlus(b as usize, (i - b) as u32)
        },
        None => Discriminant::Offset(i as u32),
    }
}

proof fn lemma_last_explicit_bounds(explicit: Seq<bool>, i: int)
    ensures
        last_explicit(explicit, i) matches Some(b) ==> 0 <= b < i && explicit[b],
    decreases i,
{
    if i > 0 && !explicit[i - 1] {
        lemma_last_explicit_bounds(explicit, i - 1);
    }
}

/// The discriminants of the variants of an enum, given for each variant
/// whether it has an explicit discriminant (`= value`).
pub fn variant_discriminants(explicit: &[bool]) -> (r: Vec<Discriminant>)
    requires
        explicit@.len() <= u32::MAX,
    ensures
        r@.len() == explicit@.len(),
        forall|i: int| 0 <= i < r@.len() ==> #[trigger] r@[i] == spec_discriminant(explicit@, i),
{
    let mut r: Vec<Discriminant> = Vec::new();
    let mut base: Option<usize> = None;
    let mut offset: u32 = 0;
    let mut i: usize = 0;
    while i < explicit.len()
        invariant
            explicit@.len() <= u32::MAX,
            i <= explicit@.len(),
            r@.len() == i,
            forall|k: int| 0 <= k < i ==> #[trigger] r@[k] == spec_discriminant(explicit@, k),
            match last_explicit(explicit@, i as int) {
                Some(b) => base == Some(b as usize) && offset == i - b,
                None => base is None && offset == i,
            },
        decreases explicit.len() - i,
    {
        proof {
            lemma_last_explicit_bounds(explicit@, i as int);
        }
        if explicit[i] {
            base = Some(i);
            offset = 0;
        }
        let d = match base {
            Some(b) => if offset == 0 {
                Discriminant::Base(b)
            } else {
                Discriminant::BasePlus(b, offset)
            },
            None => Discriminant::Offset(offset),
        };
        r.push(d);
        offset = offset + 1;
        i += 1;
    }
    r
}

/// The trait that a `where` bound asks a type parameter for.
#[derive(Copy, Clone, Debug, PartialEq, Eq, Structural)]
pub enum BoundKind {
    Save,
    Restore,
    RestoreField,
    RestoreWithDefault,
}

/// A field counts for the bound of a trait unless its attributes leave it
/// out of that trait: saving skips `skip_save` fields; restoring skips
/// `skip_restore` fields, and uses `Restore` for plain fields and
/// `RestoreField` for flattened ones.
pub open spec fn spec_skipped_for(kind: BoundKind, a: FieldAttrsView) -> bool {
    match kind {
        BoundKind::Save => a.skip_save,
        BoundKind::Restore => a.skip_restore || a.flatten,
        BoundKind::RestoreField => a.skip_restore || !a.flatten,
        BoundKind::RestoreWithDefault => a.skip_restore,
    }
}

impl FieldAttrs {
    /// The field is left out of the bound of trait `kind`.
    pub fn skipped_for(&self, kind: BoundKind) -> (r: bool)
        ensures
            r == spec_skipped_for(kind, self@),
    {
        match kind {
            BoundKind::Save => self.skip_save,
            BoundKind::Restore => self.skip_restore || self.flatten,
            BoundKind::RestoreField => self.skip_restore || !self.flatten,
            BoundKind::RestoreWithDefault => self.skip_restore,
        }
    }
}

/// A type parameter gets a bound when a field that is not left out has
/// exactly that parameter as its type: `is_param[i]` says whether field
/// `i`'s type is the parameter, `skipped[i]` whether the field is left out.
pub fn needs_where_bound(is_param: &[bool], skipped: &[bool]) -> (r: bool)
    requires
        is_param@.len() == skipped@.len(),
    ensures
        r == exists|i: int| 0 <= i < is_param@.len() && #[trigger] is_param@[i] && !skipped@[i],
{
    let mut i: usize = 0;
    while i < is_param.len()
        invariant
            is_param@.len() == skipped@.len(),
            i <= is_param@.len(),
            forall|k: int| 0 <= k < i ==> !(#[trigger] is_param@[k] && !skipped@[k]),
        decreases is_param.len() - i,
    {
        if is_param[i] && !skipped[i] {
            return true;
        }
        i += 1;
    }
    false
}

/// How the derive names a field in the save data.
#[derive(Copy, Clone, Debug, PartialEq, Eq, Structural)]
pub enum FieldName {
    /// The name given by `rename`.
    Renamed,
    /// The field's own name.
    Ident,
    /// The field's position, in decimal.
    Index(usize),
}

/// The name of field `index` in the save data: the `rename` if there is
/// one, else the field's name, else its position.
pub fn field_name(rename: bool, has_ident: bool, index: usize) -> (r: FieldName)
    ensures
        r == if rename {
            FieldName::Renamed
        } else if has_ident {
            FieldName::Ident
        } else {
            FieldName::Index(index)
        },
{
    if rename {
        FieldName::Renamed
    } else if has_ident {
        FieldName::Ident
    } else {
        FieldName::Index(index)
    }
}

/// A variant without explicit discriminant takes the next value after the
/// variant before it; a variant with one starts again from its own.
pub proof fn lemma_discriminants_count_up(explicit: Seq<bool>, i: int)
    requires
        0 <= i,
        i + 1 < explicit.len(),
        i + 1 <= u32::MAX,
    ensures
        explicit[i + 1] ==> spec_discriminant(explicit, i + 1) == Discriminant::Base((i + 1) as usize),
        !explicit[i + 1] ==> match spec_discriminant(explicit, i) {
            Discriminant::Base(b) => spec_discriminant(explicit, i + 1) == Discriminant::BasePlus(b, 1),
            Discriminant::BasePlus(b, o) => spec_discriminant(explicit, i + 1) == Discriminant::BasePlus(
                b,
                (o + 1) as u32,
            ),
            Discriminant::Offset(o) => spec_discriminant(explicit, i + 1) == Discriminant::Offset(
                (o + 1) as u32,
            ),
        },
{
    lemma_last_explicit_bounds(explicit, i + 1);
    lemma_last_explicit_bounds(explicit, i + 2);
}

/// The item list holds an item that asks to skip saving.
pub open spec fn asks_skip_save(metas: Seq<SaveMeta>) -> bool {
    exists|i: int| 0 <= i < metas.len() && (#[trigger] metas[i] is Skip || metas[i] is SkipSave)
}

/// The item list holds an item that asks to skip restoring.
pub open spec fn asks_skip_restore(metas: Seq<SaveMeta>) -> bool {
    exists|i: int| 0 <= i < metas.len() && (#[trigger] metas[i] is Skip || metas[i] is SkipRestore)
}

/// The item list holds a `flatten` item.
pub open spec fn asks_flatten(metas: Seq<SaveMeta>) -> bool {
    exists|i: int| 0 <= i < metas.len() && #[trigger] metas[i] is Flatten
}

/// The item list holds a `global` item.
pub open spec fn asks_global(metas: Seq<SaveMeta>) -> bool {
    exists|i: int| 0 <= i < metas.len() && #[trigger] metas[i] is Global
}

/// An attribute whose items are all understood is read without error, and
/// each flag ends up set exactly when it was set before or an item asks
/// for it: `skip` and `skip_save` for skipping the save, `skip` and
/// `skip_restore` for skipping the restore, `flatten`, `global`. No other
/// item touches these flags.
pub proof fn lemma_attr_flags(a: FieldAttrsView, metas: Seq<SaveMeta>)
    requires
        forall|i: int| 0 <= i < metas.len() ==> !(#[trigger] metas[i] is Invalid),
    ensures
        apply_attr(a, metas).1,
        apply_attr(a, metas).0.skip_save == (a.skip_save || asks_skip_save(metas)),
        apply_attr(a, metas).0.skip_restore == (a.skip_restore || asks_skip_restore(metas)),
        apply_attr(a, metas).0.flatten == (a.flatten || asks_flatten(metas)),
        apply_attr(a, metas).0.global == (a.global || asks_global(metas)),
    decreases metas.len(),
{
    if metas.len() > 0 {
        let rest = metas.drop_first();
        assert(!(metas[0] is Invalid));
        lemma_attr_flags(apply_meta(a, metas[0]), rest);
        assert forall|i: int| 0 <= i < rest.len() implies #[trigger] rest[i] == metas[i + 1] by {}
        if asks_skip_save(rest) {
            let i = choose|i: int| 0 <= i < rest.len() && (#[trigger] rest[i] is Skip || rest[i] is SkipSave);
            assert(metas[i + 1] == rest[i]);
        }
        if asks_skip_restore(rest) {
            let i = choose|i: int| 0 <= i < rest.len() && (#[trigger] rest[i] is Skip || rest[i] is SkipRestore);
            assert(metas[i + 1] == rest[i]);
        }
        if asks_flatten(rest) {
            let i = choose|i: int| 0 <= i < rest.len() && #[trigger] rest[i] is Flatten;
            assert(metas[i + 1] == rest[i]);
        }
        if asks_global(rest) {
            let i = choose|i: int| 0 <= i < rest.len() && #[trigger] rest[i] is Global;
            assert(metas[i + 1] == rest[i]);
        }
        if asks_skip_save(metas) {
            let i = choose|i: int| 0 <= i < metas.len() && (#[trigger] metas[i] is Skip || metas[i] is SkipSave);
            if i > 0 {
                assert(rest[i - 1] == metas[i]);
            }
        }
        if asks_skip_restore(metas) {
            let i = choose|i: int| 0 <= i < metas.len() && (#[trigger] metas[i] is Skip || metas[i] is SkipRestore);
            if i > 0 {
                assert(rest[i - 1] == metas[i]);
            }
        }
        if asks_flatten(metas) {
            let i = choose|i: int| 0 <= i < metas.len() && #[trigger] metas[i] is Flatten;
            if i > 0 {
                assert(rest[i - 1] == metas[i]);
            }
        }
        if asks_global(metas) {
            let i = choose|i: int| 0 <= i < metas.len() && #[trigger] metas[i] is Global;
            if i > 0 {
                assert(rest[i - 1] == metas[i]);
            }
        }
    }
}

/// A field with a single attribute whose items are all understood parses
/// without error, with each flag set exactly when an item asks for it.
pub proof fn lemma_single_attr_flags(metas: Seq<SaveMeta>)
    requires
        forall|i: int| 0 <= i < metas.len() ==> !(#[trigger] metas[i] is Invalid),
    ensures
        apply_attrs(seq![metas]).1.len() == 0,
        apply_attrs(seq![metas]).0.skip_save == asks_skip_save(metas),
        apply_attrs(seq![metas]).0.skip_restore == asks_skip_restore(metas),
        apply_attrs(seq![metas]).0.flatten == asks_flatten(metas),
        apply_attrs(seq![metas]).0.global == asks_global(metas),
{
    let attrs = seq![metas];
    assert(attrs.drop_last() =~= Seq::<Seq<SaveMeta>>::empty());
    assert(attrs.last() == metas);
    let z = Seq::<Seq<SaveMeta>>::empty();
    assert(apply_attrs(z) == (default_field_attrs(), Seq::<usize>::empty()));
    lemma_attr_flags(default_field_attrs(), metas);
    let d = default_field_attrs();
    assert(!d.skip_save && !d.skip_restore && !d.flatten && !d.global);
}

} // verus!
