//! HUD sprites: handles that the engine gives for loaded sprites, the
//! sprite list files that name the parts of the HUD, and the digit sprites.

use vstd::prelude::*;

verus! {

/// A rectangle in a sprite, in pixels (`wrect_s`).
#[derive(Copy, Clone, Debug, PartialEq, Eq, Structural)]
pub struct WRect {
    pub left: i32,
    pub right: i32,
    pub top: i32,
    pub bottom: i32,
}

/// A handle of a sprite that the engine loaded; never 0.
#[derive(Copy, Clone, Debug, PartialEq, Eq, Structural)]
pub struct SpriteHandle {
    raw: i32,
}

impl SpriteHandle {
    /// The engine's handle value.
    pub closed spec fn spec_raw(&self) -> i32 {
        self.raw
    }

    #[verifier::type_invariant]
    spec fn nonzero(&self) -> bool {
        self.raw != 0
    }

    /// The handle for an engine handle value; 0 means that no sprite was
    /// loaded.
    pub fn new(raw: i32) -> (r: Option<SpriteHandle>)
        ensures
            r is Some <==> raw != 0,
            r matches Some(h) ==> h.spec_raw() == raw,
    {
        if raw != 0 {
            Some(SpriteHandle { raw })
        } else {
            None
        }
    }

    /// The engine's handle value.
    pub fn raw(&self) -> (r: i32)
        ensures
            r == self.spec_raw(),
            r != 0,
    {
        proof {
            use_type_invariant(self);
        }
        self.raw
    }
}

/// A sprite: a loaded sprite and the rectangle of it to draw.
#[derive(Copy, Clone, Debug, PartialEq, Eq, Structural)]
pub struct Sprite {
    pub handle: SpriteHandle,
    pub rect: WRect,
}

/// The width and height of the rectangle fit an `i32`.
pub open spec fn rect_fits(rect: WRect) -> bool {
    &&& i32::MIN <= rect.right - rect.left <= i32::MAX
    &&& i32::MIN <= rect.bottom - rect.top <= i32::MAX
}

impl Sprite {
    /// A sprite of `handle` cut to `rect`.
    pub fn new(handle: SpriteHandle, rect: WRect) -> (r: Sprite)
        ensures
            r.handle == handle,
            r.rect == rect,
    {
        Sprite { handle, rect }
    }

    /// The sprite's handle.
    pub fn handle(&self) -> (r: SpriteHandle)
        ensures
            r == self.handle,
    {
        self.handle
    }

    /// The sprite's rectangle.
    pub fn rect(&self) -> (r: WRect)
        ensures
            r == self.rect,
    {
        self.rect
    }

    /// The width of the rectangle.
    pub fn width(&self) -> (r: i32)
        requires
            rect_fits(self.rect),
        ensures
            r == self.rect.right - self.rect.left,
    {
        self.rect.right - self.rect.left
    }

    /// The height of the rectangle.
    pub fn height(&self) -> (r: i32)
        requires
            rect_fits(self.rect),
        ensures
            r == self.rect.bottom - self.rect.top,
    {
        self.rect.bottom - self.rect.top
    }

    /// The width and height of the rectangle.
    pub fn size(&self) -> (r: (i32, i32))
        requires
            rect_fits(self.rect),
        ensures
            r.0 == self.rect.right - self.rect.left,
            r.1 == self.rect.bottom - self.rect.top,
    {
        (self.width(), self.height())
    }
}

/// One entry of a sprite list file (`client_sprite_s`): the HUD part's
/// name, the sprite file's name, the screen resolution it is meant for and
/// the rectangle in the sprite.
pub struct SpriteInfo {
    pub name: Vec<u8>,
    pub sprite: Vec<u8>,
    pub res: i32,
    pub rect: WRect,
}

/// The entry can stand for `name` at resolution `res`.
pub open spec fn info_matches(e: SpriteInfo, name: Seq<u8>, res: i32) -> bool {
    e.res <= res && e.name@ == name
}

/// The entry that `SpriteList::find` picks among the entries of `s`: of
/// those named `name` with a resolution up to `res`, the one of the highest
/// resolution, and of several such the last.
pub open spec fn spec_find_index(s: Seq<SpriteInfo>, name: Seq<u8>, res: i32) -> Option<int>
    decreases s.len(),
{
    if s.len() == 0 {
        None
    } else {
        let k = s.len() - 1;
        let prev = spec_find_index(s.drop_last(), name, res);
        if info_matches(s[k], name, res) {
            match prev {
                Some(p) => if s[k].res >= s[p].res {
                    Some(k)
                } else {
                    Some(p)
                },
                None => Some(k),
            }
        } else {
            prev
        }
    }
}

/// What the sprite list lookup picks: nothing exactly when no entry
/// matches; otherwise a matching entry of the highest matching resolution,
/// with no later matching entry of that resolution.
pub proof fn lemma_find_index(s: Seq<SpriteInfo>, name: Seq<u8>, res: i32)
    ensures
        spec_find_index(s, name, res) is None <==> !(exists|i: int|
            0 <= i < s.len() && info_matches(#[trigger] s[i], name, res)),
        spec_find_index(s, name, res) matches Some(j) ==> {
            &&& 0 <= j < s.len()
            &&& info_matches(s[j], name, res)
            &&& forall|i: int|
                0 <= i < s.len() && info_matches(#[trigger] s[i], name, res) ==> s[i].res <= s[j].res
            &&& forall|i: int|
                j < i < s.len() && info_matches(#[trigger] s[i], name, res) ==> s[i].res < s[j].res
        },
    decreases s.len(),
{
    if s.len() > 0 {
        let t = s.drop_last();
        lemma_find_index(t, name, res);
        assert forall|i: int| 0 <= i < t.len() implies t[i] == s[i] by {}
    }
}

/// The entries of a sprite list file.
pub struct SpriteList {
    entries: Vec<SpriteInfo>,
}

impl SpriteList {
    /// The entries.
    pub closed spec fn view_entries(&self) -> Seq<SpriteInfo> {
        self.entries@
    }

    /// A list of these entries.
    pub fn new(entries: Vec<SpriteInfo>) -> (r: SpriteList)
        ensures
            r.view_entries() == entries@,
    {
        SpriteList { entries }
    }

    /// The entries.
    pub fn as_slice(&self) -> (r: &[SpriteInfo])
        ensures
            r@ == self.view_entries(),
    {
        self.entries.as_slice()
    }

    /// The number of entries.
    pub fn len(&self) -> (r: usize)
        ensures
            r == self.view_entries().len(),
    {
        self.entries.len()
    }

    /// The index of the entry that stands for `name` at resolution `res`
    /// (see `spec_find_index`).
    pub fn find_index(&self, name: &[u8], res: i32) -> (r: Option<usize>)
        ensures
            r matches Some(i) ==> spec_find_index(self.view_entries(), name@, res) == Some(i as int),
            r is None ==> spec_find_index(self.view_entries(), name@, res) is None,
    {
        let ghost s = self.entries@;
        let mut best: Option<usize> = None;
        let mut i: usize = 0;
        assert(s.take(0) =~= Seq::<SpriteInfo>::empty());
        while i < self.entries.len()
            invariant
                s == self.entries@,
                i <= s.len(),
                match best {
                    Some(b) => spec_find_index(s.take(i as int), name@, res) == Some(b as int),
                    None => spec_find_index(s.take(i as int), name@, res) is None,
                },
            decreases s.len() - i,
        {
            let e = &self.entries[i];
            assert(s.take(i + 1).drop_last() =~= s.take(i as int));
            assert(s.take(i + 1)[i as int] == s[i as int]);
            proof {
                lemma_find_index(s.take(i as int), name@, res);
            }
            if e.res <= res && slices_equal(e.name.as_slice(), name) {
                match best {
                    Some(b) => {
                        assert(s.take(i + 1)[b as int] == s[b as int]);
                        if e.res >= self.entries[b].res {
                            best = Some(i);
                        }
                    },
                    None => {
                        best = Some(i);
                    },
                }
            }
            i += 1;
        }
        assert(s.take(i as int) =~= s);
        best
    }

    /// The entry that stands for `name` at resolution `res`: of the entries
    /// named `name` with a resolution up to `res`, the one with the highest
    /// resolution (the last of several), or `None`.
    pub fn find(&self, name: &[u8], res: i32) -> (r: Option<&SpriteInfo>)
        ensures
            r is Some <==> spec_find_index(self.view_entries(), name@, res) is Some,
            r matches Some(e) ==> *e == self.view_entries()[spec_find_index(
                self.view_entries(),
                name@,
                res,
            ).unwrap()],
    {
        proof {
            lemma_find_index(self.entries@, name@, res);
        }
        match self.find_index(name, res) {
            Some(i) => Some(&self.entries[i]),
            None => None,
        }
    }

    /// The entry at `i` is meant for screens of resolution `resolution`, so
    /// that the sprite it names is to be loaded.
    pub fn matches_resolution(&self, i: usize, resolution: u32) -> (r: bool)
        requires
            i < self.view_entries().len(),
        ensures
            r == (self.view_entries()[i as int].res as u32 == resolution),
    {
        self.entries[i].res as u32 == resolution
    }
}

/// Byte strings are equal.
pub fn slices_equal(a: &[u8], b: &[u8]) -> (r: bool)
    ensures
        r == (a@ == b@),
{
    if a.len() != b.len() {
        return false;
    }
    let mut i: usize = 0;
    while i < a.len()
        invariant
            a@.len() == b@.len(),
            i <= a@.len(),
            forall|j: int| 0 <= j < i ==> a@[j] == b@[j],
        decreases a.len() - i,
    {
        if a[i] != b[i] {
            return false;
        }
        i += 1;
    }
    assert(a@ =~= b@);
    true
}

/// The path of the sprite file that a sprite list names:
/// `sprites/<name>.spr`.
pub open spec fn spec_sprite_path(name: Seq<u8>) -> Seq<u8> {
    seq![0x73u8, 0x70u8, 0x72u8, 0x69u8, 0x74u8, 0x65u8, 0x73u8, 0x2fu8] + name + seq![
        0x2eu8,
        0x73u8,
        0x70u8,
        0x72u8,
    ]
}

/// Builds `sprites/<name>.spr`, the file to load for a sprite list entry.
pub fn sprite_path(name: &[u8]) -> (r: Vec<u8>)
    ensures
        r@ == spec_sprite_path(name@),
{
    let mut v: Vec<u8> = vec![0x73u8, 0x70u8, 0x72u8, 0x69u8, 0x74u8, 0x65u8, 0x73u8, 0x2fu8];
    let ghost head = v@;
    let mut i: usize = 0;
    while i < name.len()
        invariant
            i <= name@.len(),
            v@ == head + name@.subrange(0, i as int),
        decreases name.len() - i,
    {
        v.push(name[i]);
        i += 1;
        assert(v@ =~= head + name@.subrange(0, i as int));
    }
    v.push(0x2e);
    v.push(0x73);
    v.push(0x70);
    v.push(0x72);
    assert(name@.subrange(0, i as int) =~= name@);
    assert(v@ =~= spec_sprite_path(name@));
    v
}

/// A sprite of the HUD and the name that the sprite list gave it.
pub struct NamedSprite {
    pub name: Vec<u8>,
    pub sprite: Sprite,
}

/// What loading a sprite list gives, in list order: each entry meant for
/// `resolution` whose sprite the engine loaded, with its name and sprite.
/// `handles[i]` is what loading the sprite of entry `i` gave.
pub open spec fn spec_loaded(
    list: Seq<SpriteInfo>,
    handles: Seq<Option<SpriteHandle>>,
    resolution: u32,
) -> Seq<(Seq<u8>, Sprite)>
    decreases list.len(),
{
    if list.len() == 0 {
        Seq::empty()
    } else {
        let prev = spec_loaded(list.drop_last(), handles.drop_last(), resolution);
        let e = list.last();
        match handles.last() {
            Some(h) => if e.res as u32 == resolution {
                prev.push((e.name@, Sprite { handle: h, rect: e.rect }))
            } else {
                prev
            },
            None => prev,
        }
    }
}

/// The index of the first sprite named `name`, if any.
pub open spec fn spec_first_named(s: Seq<(Seq<u8>, Sprite)>, name: Seq<u8>) -> Option<int>
    decreases s.len(),
{
    if s.len() == 0 {
        None
    } else if s[0].0 == name {
        Some(0)
    } else {
        match spec_first_named(s.drop_first(), name) {
            Some(i) => Some(i + 1),
            None => None,
        }
    }
}

/// The sprite that a name lookup finds is the first of that name, and
/// there is none exactly when no sprite has that name.
pub proof fn lemma_first_named(s: Seq<(Seq<u8>, Sprite)>, name: Seq<u8>)
    ensures
        spec_first_named(s, name) is None <==> !(exists|i: int| 0 <= i < s.len() && #[trigger] s[i].0 == name),
        spec_first_named(s, name) matches Some(j) ==> 0 <= j < s.len() && s[j].0 == name && forall|i: int|
            0 <= i < j ==> #[trigger] s[i].0 != name,
    decreases s.len(),
{
    if s.len() > 0 && s[0].0 != name {
        lemma_first_named(s.drop_first(), name);
        if exists|i: int| 0 <= i < s.len() && #[trigger] s[i].0 == name {
            let i = choose|i: int| 0 <= i < s.len() && #[trigger] s[i].0 == name;
            assert(s.drop_first()[i - 1].0 == name);
        }
        assert forall|i: int| 0 < i < s.len() implies s[i] == s.drop_first()[i - 1] by {}
    }
}

/// The HUD sprites of one resolution, by name.
pub struct Sprites {
    sprites: Vec<NamedSprite>,
}

impl View for Sprites {
    type V = Seq<(Seq<u8>, Sprite)>;

    closed spec fn view(&self) -> Seq<(Seq<u8>, Sprite)> {
        self.sprites@.map_values(|n: NamedSprite| (n.name@, n.sprite))
    }
}

impl Sprites {
    /// No sprites.
    pub fn new() -> (r: Sprites)
        ensures
            r@ == Seq::<(Seq<u8>, Sprite)>::empty(),
    {
        let r = Sprites { sprites: Vec::new() };
        assert(r@ =~= Seq::<(Seq<u8>, Sprite)>::empty());
        r
    }

    /// The number of sprites.
    pub fn len(&self) -> (r: usize)
        ensures
            r == self@.len(),
    {
        self.sprites.len()
    }

    /// The name and sprite at `i`.
    pub fn get(&self, i: usize) -> (r: (&[u8], Sprite))
        requires
            i < self@.len(),
        ensures
            r.0@ == self@[i as int].0,
            r.1 == self@[i as int].1,
    {
        (self.sprites[i].name.as_slice(), self.sprites[i].sprite)
    }

    /// The sprites of a sprite list (see `reload_from_list`).
    pub fn load_from_list(resolution: u32, list: &SpriteList, handles: &[Option<SpriteHandle>]) -> (r:
        Sprites)
        requires
            handles@.len() == list.view_entries().len(),
        ensures
            r@ == spec_loaded(list.view_entries(), handles@, resolution),
    {
        let mut r = Sprites::new();
        r.reload_from_list(resolution, list, handles);
        r
    }

    /// Replaces the sprites with those of a sprite list: the entries meant
    /// for `resolution` whose sprite loaded, in list order. `handles[i]` is
    /// what loading the sprite of entry `i` (see `sprite_path`) gave; only
    /// the entries for which `SpriteList::matches_resolution` holds are
    /// loaded.
    pub fn reload_from_list(&mut self, resolution: u32, list: &SpriteList, handles: &[Option<SpriteHandle>])
        requires
            handles@.len() == list.view_entries().len(),
        ensures
            final(self)@ == spec_loaded(list.view_entries(), handles@, resolution),
    {
        let entries = list.as_slice();
        let ghost l = entries@;
        self.sprites = Vec::new();
        let mut i: usize = 0;
        assert(l.take(0) =~= Seq::<SpriteInfo>::empty());
        assert(self@ =~= spec_loaded(l.take(0), handles@.take(0), resolution));
        while i < entries.len()
            invariant
                l == entries@,
                handles@.len() == l.len(),
                i <= l.len(),
                self@ == spec_loaded(l.take(i as int), handles@.take(i as int), resolution),
            decreases l.len() - i,
        {
            let e = &entries[i];
            let ghost before = self@;
            assert(l.take(i + 1).drop_last() =~= l.take(i as int));
            assert(handles@.take(i + 1).drop_last() =~= handles@.take(i as int));
            assert(l.take(i + 1).last() == l[i as int]);
            assert(handles@.take(i + 1).last() == handles@[i as int]);
            if e.res as u32 == resolution {
                match handles[i] {
                    Some(h) => {
                        let n = NamedSprite {
                            name: vstd::slice::slice_to_vec(e.name.as_slice()),
                            sprite: Sprite::new(h, e.rect),
                        };
                        self.sprites.push(n);
                        assert(self@ =~= before.push((e.name@, Sprite { handle: h, rect: e.rect })));
                    },
                    None => {},
                }
            }
            i += 1;
        }
        assert(l.take(i as int) =~= l);
        assert(handles@.take(i as int) =~= handles@);
    }

    /// The index of the first sprite named `name`.
    pub fn find_index(&self, name: &[u8]) -> (r: Option<usize>)
        ensures
            r matches Some(i) ==> spec_first_named(self@, name@) == Some(i as int),
            r is None ==> spec_first_named(self@, name@) is None,
    {
        let ghost s = self@;
        proof {
            lemma_first_named(s, name@);
        }
        let mut i: usize = 0;
        while i < self.sprites.len()
            invariant
                s == self@,
                i <= s.len(),
                forall|j: int| 0 <= j < i ==> #[trigger] s[j].0 != name@,
            decreases s.len() - i,
        {
            assert(s[i as int].0 == self.sprites@[i as int].name@);
            if slices_equal(self.sprites[i].name.as_slice(), name) {
                proof {
                    lemma_first_named(s, name@);
                }
                return Some(i);
            }
            i += 1;
        }
        None
    }

    /// The first sprite named `name`.
    pub fn find(&self, name: &[u8]) -> (r: Option<Sprite>)
        ensures
            r is Some <==> spec_first_named(self@, name@) is Some,
            r matches Some(sp) ==> sp == self@[spec_first_named(self@, name@).unwrap()].1,
    {
        proof {
            lemma_first_named(self@, name@);
        }
        match self.find_index(name) {
            Some(i) => Some(self.sprites[i].sprite),
            None => None,
        }
    }
}

/// The sprite list name of digit `i`: `number_<i>`.
pub open spec fn digit_name(i: int) -> Seq<u8> {
    seq![0x6eu8, 0x75u8, 0x6du8, 0x62u8, 0x65u8, 0x72u8, 0x5fu8, (0x30 + i) as u8]
}

/// The first sprite named `name`.
pub open spec fn spec_find_sprite(s: Seq<(Seq<u8>, Sprite)>, name: Seq<u8>) -> Option<Sprite> {
    match spec_first_named(s, name) {
        Some(i) => Some(s[i].1),
        None => None,
    }
}

/// The size of the digits: that of the first digit sprite found whose
/// width is not 0 at the time, kept through the later ones.
pub open spec fn digit_dims(found: Seq<Option<Sprite>>) -> (i32, i32)
    decreases found.len(),
{
    if found.len() == 0 {
        (0, 0)
    } else {
        let (w, h) = digit_dims(found.drop_last());
        match found.last() {
            Some(sp) => if w == 0 {
                (
                    (sp.rect.right - sp.rect.left) as i32,
                    (sp.rect.bottom - sp.rect.top) as i32,
                )
            } else {
                (w, h)
            },
            None => (w, h),
        }
    }
}

/// The digit sprites found among `s`, by digit.
pub open spec fn found_digits(s: Seq<(Seq<u8>, Sprite)>) -> Seq<Option<Sprite>> {
    Seq::new(10, |i: int| spec_find_sprite(s, digit_name(i)))
}

/// The size of every digit sprite that `from_sprites` measures fits an
/// `i32`: a digit found while no digit before it gave a width other than 0.
pub open spec fn measured_digits_fit(s: Seq<(Seq<u8>, Sprite)>) -> bool {
    forall|i: int|
        0 <= i < 10 && digit_dims(found_digits(s).take(i)).0 == 0 ==> match #[trigger] found_digits(
            s,
        )[i] {
            Some(sp) => rect_fits(sp.rect),
            None => true,
        }
}

/// The sprites of the ten digits, and the size of one.
pub struct DigitSprites {
    digits: Vec<Option<Sprite>>,
    width: i32,
    height: i32,
}

impl DigitSprites {
    /// There is one entry for each of the ten digits.
    #[verifier::type_invariant]
    spec fn ten_digits(&self) -> bool {
        self.digits@.len() == 10
    }

    /// The digit sprites, by digit.
    pub closed spec fn digits_view(&self) -> Seq<Option<Sprite>> {
        self.digits@
    }

    /// The width of a digit.
    pub closed spec fn spec_width(&self) -> i32 {
        self.width
    }

    /// The height of a digit.
    pub closed spec fn spec_height(&self) -> i32 {
        self.height
    }

    /// No digit sprites, of size 0.
    pub fn new() -> (r: DigitSprites)
        ensures
            r.digits_view() == Seq::new(10, |i: int| None::<Sprite>),
            r.spec_width() == 0,
            r.spec_height() == 0,
    {
        let mut digits: Vec<Option<Sprite>> = Vec::new();
        let mut i: usize = 0;
        while i < 10
            invariant
                i <= 10,
                digits@ == Seq::new(i as nat, |i: int| None::<Sprite>),
            decreases 10 - i,
        {
            digits.push(None);
            i += 1;
            assert(digits@ =~= Seq::new(i as nat, |i: int| None::<Sprite>));
        }
        DigitSprites { digits, width: 0, height: 0 }
    }

    /// Finds the sprites `number_0` to `number_9`; the size of a digit is
    /// that of the first one found.
    pub fn from_sprites(sprites: &Sprites) -> (r: DigitSprites)
        requires
            measured_digits_fit(sprites@),
        ensures
            r.digits_view() == found_digits(sprites@),
            (r.spec_width(), r.spec_height()) == digit_dims(r.digits_view()),
    {
        let ghost target = found_digits(sprites@);
        let mut digits: Vec<Option<Sprite>> = Vec::new();
        let mut width: i32 = 0;
        let mut height: i32 = 0;
        let mut i: usize = 0;
        assert(digits@ =~= target.take(0));
        while i < 10
            invariant
                i <= 10,
                target == found_digits(sprites@),
                measured_digits_fit(sprites@),
                digits@ == target.take(i as int),
                (width, height) == digit_dims(digits@),
            decreases 10 - i,
        {
            let name: Vec<u8> = vec![0x6eu8, 0x75u8, 0x6du8, 0x62u8, 0x65u8, 0x72u8, 0x5fu8, 0x30u8 + (i as u8)];
            assert(name@ =~= digit_name(i as int));
            let found = sprites.find(name.as_slice());
            proof {
                lemma_first_named(sprites@, name@);
            }
            let ghost before = digits@;
            assert(found == target[i as int]);
            assert(found_digits(sprites@)[i as int] == found);
            match found {
                Some(sp) => {
                    if width == 0 {
                        assert(rect_fits(sp.rect));
                        width = sp.width();
                        height = sp.height();
                    }
                },
                None => {},
            }
            digits.push(found);
            assert(digits@.drop_last() =~= before);
            i += 1;
            assert(digits@ =~= target.take(i as int));
        }
        DigitSprites { digits, width, height }
    }

    /// The sprite of a decimal digit character, if it was found.
    pub fn get_by_char(&self, c: char) -> (r: Option<Sprite>)
        ensures
            r == if '0' <= c && c <= '9' {
                self.digits_view()[c as int - '0' as int]
            } else {
                None
            },
    {
        proof {
            use_type_invariant(self);
        }
        if '0' <= c && c <= '9' {
            let i = (c as u32 - '0' as u32) as usize;
            self.digits[i]
        } else {
            None
        }
    }

    /// The width of a digit.
    pub fn width(&self) -> (r: i32)
        ensures
            r == self.spec_width(),
    {
        self.width
    }

    /// The height of a digit.
    pub fn height(&self) -> (r: i32)
        ensures
            r == self.spec_height(),
    {
        self.height
    }
}

/// Every sprite loaded from a list comes from an entry meant for exactly
/// the requested resolution that the engine loaded: it has that entry's
/// name, handle and rectangle. Conversely every such entry is loaded.
pub proof fn lemma_loaded_sprites_match_resolution(
    list: Seq<SpriteInfo>,
    handles: Seq<Option<SpriteHandle>>,
    resolution: u32,
)
    requires
        handles.len() == list.len(),
    ensures
        forall|k: int|
            0 <= k < spec_loaded(list, handles, resolution).len() ==> exists|i: int|
                0 <= i < list.len() && list[i].res as u32 == resolution && handles[i] == Some(
                    (#[trigger] spec_loaded(list, handles, resolution)[k]).1.handle,
                ) && spec_loaded(list, handles, resolution)[k].0 == list[i].name@ && spec_loaded(
                    list,
                    handles,
                    resolution,
                )[k].1.rect == list[i].rect,
        forall|i: int|
            0 <= i < list.len() && list[i].res as u32 == resolution && #[trigger] handles[i] is Some
                ==> exists|k: int|
                0 <= k < spec_loaded(list, handles, resolution).len() && spec_loaded(
                    list,
                    handles,
                    resolution,
                )[k] == (list[i].name@, Sprite { handle: handles[i]->0, rect: list[i].rect }),
    decreases list.len(),
{
    if list.len() > 0 {
        let (l0, h0) = (list.drop_last(), handles.drop_last());
        lemma_loaded_sprites_match_resolution(l0, h0, resolution);
        let prev = spec_loaded(l0, h0, resolution);
        let cur = spec_loaded(list, handles, resolution);
        let n = list.len() - 1;
        assert forall|i: int| 0 <= i < l0.len() implies l0[i] == list[i] && h0[i] == handles[i] by {}
        assert forall|k: int| 0 <= k < prev.len() implies cur[k] == prev[k] by {}
        assert forall|k: int| 0 <= k < cur.len() implies exists|i: int|
            0 <= i < list.len() && list[i].res as u32 == resolution && handles[i] == Some(
                (#[trigger] cur[k]).1.handle,
            ) && cur[k].0 == list[i].name@ && cur[k].1.rect == list[i].rect by {
            if k < prev.len() {
                let i = choose|i: int|
                    0 <= i < l0.len() && l0[i].res as u32 == resolution && h0[i] == Some(
                        (#[trigger] prev[k]).1.handle,
                    ) && prev[k].0 == l0[i].name@ && prev[k].1.rect == l0[i].rect;
                assert(list[i] == l0[i] && handles[i] == h0[i]);
            } else {
                assert(k == prev.len());
                assert(list[n].res as u32 == resolution && handles[n] == Some(cur[k].1.handle));
            }
        }
        assert forall|i: int|
            0 <= i < list.len() && list[i].res as u32 == resolution && #[trigger] handles[i] is Some
                implies exists|k: int|
                0 <= k < cur.len() && cur[k] == (
                    list[i].name@,
                    Sprite { handle: handles[i]->0, rect: list[i].rect },
                ) by {
            if i < n {
                assert(h0[i] == handles[i] && l0[i] == list[i]);
                let k = choose|k: int|
                    0 <= k < prev.len() && prev[k] == (
                        l0[i].name@,
                        Sprite { handle: h0[i]->0, rect: l0[i].rect },
                    );
                assert(cur[k] == prev[k]);
            } else {
                assert(cur[prev.len() as int] == (
                    list[i].name@,
                    Sprite { handle: handles[i]->0, rect: list[i].rect },
                ));
            }
        }
    }
}

} // verus!
