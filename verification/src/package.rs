//! Assembles the entries of one header blob into a package record.
use crate::entry::{entry_views, strings_view, type_mismatch, EntryView, IndexEntry};
use crate::errors::DecodeError;
use crate::rpmtags::{
    TypeTag, RPMTAG_ARCH, RPMTAG_BASENAMES, RPMTAG_DIRINDEXES, RPMTAG_DIRNAMES, RPMTAG_EPOCH,
    RPMTAG_LICENSE, RPMTAG_MODULARITYLABEL, RPMTAG_NAME, RPMTAG_PROVIDENAME, RPMTAG_RELEASE,
    RPMTAG_REQUIRENAME, RPMTAG_SIZE, RPMTAG_SOURCERPM, RPMTAG_VENDOR, RPMTAG_VERSION,
};
use vstd::prelude::*;

verus! {

/// An installed package, as its header describes it.
///
/// `base_names`, `dir_indexes` and `dir_names` describe the installed files:
/// file `i` is `base_names[i]` in the directory `dir_names[dir_indexes[i]]`.
#[derive(Clone, Debug, PartialEq, Eq)]
pub struct Package {
    pub epoch: i32,
    pub name: String,
    pub version: String,
    pub release: String,
    pub arch: String,
    pub source_rpm: String,
    pub size: i32,
    pub license: String,
    pub vendor: String,
    pub modularitylabel: String,
    pub base_names: Vec<String>,
    pub dir_indexes: Vec<i32>,
    pub dir_names: Vec<String>,
    pub provides: Vec<String>,
    pub requires: Vec<String>,
}

/// What a `Package` holds, as a mathematical value.
pub struct PackageView {
    pub epoch: i32,
    pub name: Seq<char>,
    pub version: Seq<char>,
    pub release: Seq<char>,
    pub arch: Seq<char>,
    pub source_rpm: Seq<char>,
    pub size: i32,
    pub license: Seq<char>,
    pub vendor: Seq<char>,
    pub modularitylabel: Seq<char>,
    pub base_names: Seq<Seq<char>>,
    pub dir_indexes: Seq<i32>,
    pub dir_names: Seq<Seq<char>>,
    pub provides: Seq<Seq<char>>,
    pub requires: Seq<Seq<char>>,
}

impl PackageView {
    /// The package with every number zero and every text and list empty.
    pub open spec fn spec_default() -> PackageView {
        PackageView {
            epoch: 0,
            name: Seq::empty(),
            version: Seq::empty(),
            release: Seq::empty(),
            arch: Seq::empty(),
            source_rpm: Seq::empty(),
            size: 0,
            license: Seq::empty(),
            vendor: Seq::empty(),
            modularitylabel: Seq::empty(),
            base_names: Seq::empty(),
            dir_indexes: Seq::empty(),
            dir_names: Seq::empty(),
            provides: Seq::empty(),
            requires: Seq::empty(),
        }
    }
}

impl View for Package {
    type V = PackageView;

    open spec fn view(&self) -> PackageView {
        PackageView {
            epoch: self.epoch,
            name: self.name@,
            version: self.version@,
            release: self.release@,
            arch: self.arch@,
            source_rpm: self.source_rpm@,
            size: self.size,
            license: self.license@,
            vendor: self.vendor@,
            modularitylabel: self.modularitylabel@,
            base_names: strings_view(self.base_names@),
            dir_indexes: self.dir_indexes@,
            dir_names: strings_view(self.dir_names@),
            provides: strings_view(self.provides@),
            requires: strings_view(self.requires@),
        }
    }
}

impl Default for Package {
    fn default() -> (r: Package)
        ensures
            r@ == PackageView::spec_default(),
    {
        let r = Package {
            epoch: 0,
            name: String::new(),
            version: String::new(),
            release: String::new(),
            arch: String::new(),
            source_rpm: String::new(),
            size: 0,
            license: String::new(),
            vendor: String::new(),
            modularitylabel: String::new(),
            base_names: Vec::new(),
            dir_indexes: Vec::new(),
            dir_names: Vec::new(),
            provides: Vec::new(),
            requires: Vec::new(),
        };
        proof {
            assert(strings_view(r.base_names@) =~= Seq::empty());
            assert(strings_view(r.dir_names@) =~= Seq::empty());
            assert(strings_view(r.provides@) =~= Seq::empty());
            assert(strings_view(r.requires@) =~= Seq::empty());
            assert(r.name@ =~= Seq::empty());
        }
        r
    }
}

/// A field of the package record that a header entry can fill.
#[derive(Clone, Copy, Debug, PartialEq, Eq, Structural)]
pub enum Field {
    DirIndexes,
    DirNames,
    BaseNames,
    ModularityLabel,
    Name,
    Epoch,
    Version,
    Release,
    Arch,
    SourceRpm,
    License,
    Vendor,
    Size,
    Provides,
    Requires,
}

impl Field {
    /// The field that entries with the tag `tag` fill, if there is one.
    pub open spec fn spec_of_tag(tag: i32) -> Option<Field> {
        if tag == RPMTAG_DIRINDEXES {
            Some(Field::DirIndexes)
        } else if tag == RPMTAG_DIRNAMES {
            Some(Field::DirNames)
        } else if tag == RPMTAG_BASENAMES {
            Some(Field::BaseNames)
        } else if tag == RPMTAG_MODULARITYLABEL {
            Some(Field::ModularityLabel)
        } else if tag == RPMTAG_NAME {
            Some(Field::Name)
        } else if tag == RPMTAG_EPOCH {
            Some(Field::Epoch)
        } else if tag == RPMTAG_VERSION {
            Some(Field::Version)
        } else if tag == RPMTAG_RELEASE {
            Some(Field::Release)
        } else if tag == RPMTAG_ARCH {
            Some(Field::Arch)
        } else if tag == RPMTAG_SOURCERPM {
            Some(Field::SourceRpm)
        } else if tag == RPMTAG_LICENSE {
            Some(Field::License)
        } else if tag == RPMTAG_VENDOR {
            Some(Field::Vendor)
        } else if tag == RPMTAG_SIZE {
            Some(Field::Size)
        } else if tag == RPMTAG_PROVIDENAME {
            Some(Field::Provides)
        } else if tag == RPMTAG_REQUIRENAME {
            Some(Field::Requires)
        } else {
            None
        }
    }

    /// Looks up the field that entries with the tag `tag` fill.
    pub fn of_tag(tag: i32) -> (r: Option<Field>)
        ensures
            r == Self::spec_of_tag(tag),
    {
        if tag == RPMTAG_DIRINDEXES {
            Some(Field::DirIndexes)
        } else if tag == RPMTAG_DIRNAMES {
            Some(Field::DirNames)
        } else if tag == RPMTAG_BASENAMES {
            Some(Field::BaseNames)
        } else if tag == RPMTAG_MODULARITYLABEL {
            Some(Field::ModularityLabel)
        } else if tag == RPMTAG_NAME {
            Some(Field::Name)
        } else if tag == RPMTAG_EPOCH {
            Some(Field::Epoch)
        } else if tag == RPMTAG_VERSION {
            Some(Field::Version)
        } else if tag == RPMTAG_RELEASE {
            Some(Field::Release)
        } else if tag == RPMTAG_ARCH {
            Some(Field::Arch)
        } else if tag == RPMTAG_SOURCERPM {
            Some(Field::SourceRpm)
        } else if tag == RPMTAG_LICENSE {
            Some(Field::License)
        } else if tag == RPMTAG_VENDOR {
            Some(Field::Vendor)
        } else if tag == RPMTAG_SIZE {
            Some(Field::Size)
        } else if tag == RPMTAG_PROVIDENAME {
            Some(Field::Provides)
        } else if tag == RPMTAG_REQUIRENAME {
            Some(Field::Requires)
        } else {
            None
        }
    }

    /// The type under which the field's value must be stored.
    pub open spec fn spec_expected_type(self) -> TypeTag {
        match self {
            Field::DirIndexes | Field::Epoch | Field::Size => TypeTag::Int32,
            Field::DirNames | Field::BaseNames | Field::Provides | Field::Requires => {
                TypeTag::StringArray
            },
            Field::ModularityLabel
            | Field::Name
            | Field::Version
            | Field::Release
            | Field::Arch
            | Field::SourceRpm
            | Field::License
            | Field::Vendor => TypeTag::String,
        }
    }

    /// Gives the type under which the field's value must be stored.
    pub fn expected_type(self) -> (r: TypeTag)
        ensures
            r == self.spec_expected_type(),
    {
        match self {
            Field::DirIndexes | Field::Epoch | Field::Size => TypeTag::Int32,
            Field::DirNames | Field::BaseNames | Field::Provides | Field::Requires => {
                TypeTag::StringArray
            },
            Field::ModularityLabel
            | Field::Name
            | Field::Version
            | Field::Release
            | Field::Arch
            | Field::SourceRpm
            | Field::License
            | Field::Vendor => TypeTag::String,
        }
    }
}

/// A text field that holds the placeholder "(none)" is unset: it reads as
/// the empty text. Any other text stands as it is.
pub open spec fn spec_normalize(text: Seq<char>) -> Seq<char> {
    if text == "(none)"@ {
        Seq::empty()
    } else {
        text
    }
}

/// Empties a text that is the placeholder "(none)".
pub fn normalize(text: String) -> (r: String)
    ensures
        r@ == spec_normalize(text@),
{
    let placeholder: String = "(none)".to_owned();
    if text == placeholder {
        String::new()
    } else {
        text
    }
}

/// The package `package` after the entry `entry` has been taken into it.
///
/// An entry whose tag fills no field leaves the package as it is. One whose
/// tag fills a field must be stored under that field's type, and its value
/// must read; the value then replaces what the field held. The source
/// package, the licence and the vendor are normalized on the way.
pub open spec fn spec_apply(package: PackageView, entry: EntryView) -> Result<
    PackageView,
    DecodeError,
> {
    match Field::spec_of_tag(entry.info.tag) {
        None => Ok(package),
        Some(field) => if entry.info.type_tag != field.spec_expected_type() {
            Err(type_mismatch(entry.info, field.spec_expected_type()))
        } else {
            match field {
                Field::DirIndexes => match entry.spec_read_i32_array() {
                    Err(e) => Err(e),
                    Ok(v) => Ok(PackageView { dir_indexes: v, ..package }),
                },
                Field::DirNames => match entry.spec_read_string_array() {
                    Err(e) => Err(e),
                    Ok(v) => Ok(PackageView { dir_names: v, ..package }),
                },
                Field::BaseNames => match entry.spec_read_string_array() {
                    Err(e) => Err(e),
                    Ok(v) => Ok(PackageView { base_names: v, ..package }),
                },
                Field::ModularityLabel => match entry.spec_read_string() {
                    Err(e) => Err(e),
                    Ok(v) => Ok(PackageView { modularitylabel: v, ..package }),
                },
                Field::Name => match entry.spec_read_string() {
                    Err(e) => Err(e),
                    Ok(v) => Ok(PackageView { name: v, ..package }),
                },
                Field::Epoch => match entry.spec_read_i32() {
                    Err(e) => Err(e),
                    Ok(v) => Ok(PackageView { epoch: v, ..package }),
                },
                Field::Version => match entry.spec_read_string() {
                    Err(e) => Err(e),
                    Ok(v) => Ok(PackageView { version: v, ..package }),
                },
                Field::Release => match entry.spec_read_string() {
                    Err(e) => Err(e),
                    Ok(v) => Ok(PackageView { release: v, ..package }),
                },
                Field::Arch => match entry.spec_read_string() {
                    Err(e) => Err(e),
                    Ok(v) => Ok(PackageView { arch: v, ..package }),
                },
                Field::SourceRpm => match entry.spec_read_string() {
                    Err(e) => Err(e),
                    Ok(v) => Ok(PackageView { source_rpm: spec_normalize(v), ..package }),
                },
                Field::License => match entry.spec_read_string() {
                    Err(e) => Err(e),
                    Ok(v) => Ok(PackageView { license: spec_normalize(v), ..package }),
                },
                Field::Vendor => match entry.spec_read_string() {
                    Err(e) => Err(e),
                    Ok(v) => Ok(PackageView { vendor: spec_normalize(v), ..package }),
                },
                Field::Size => match entry.spec_read_i32() {
                    Err(e) => Err(e),
                    Ok(v) => Ok(PackageView { size: v, ..package }),
                },
                Field::Provides => match entry.spec_read_string_array() {
                    Err(e) => Err(e),
                    Ok(v) => Ok(PackageView { provides: v, ..package }),
                },
                Field::Requires => match entry.spec_read_string_array() {
                    Err(e) => Err(e),
                    Ok(v) => Ok(PackageView { requires: v, ..package }),
                },
            }
        },
    }
}

/// The package that the first `n` of `entries` assemble to, taken in order
/// into the default package, or the error of the first that cannot be taken.
pub open spec fn spec_assemble_first(entries: Seq<EntryView>, n: nat) -> Result<
    PackageView,
    DecodeError,
>
    decreases n,
{
    if n == 0 {
        Ok(PackageView::spec_default())
    } else {
        match spec_assemble_first(entries, (n - 1) as nat) {
            Err(e) => Err(e),
            Ok(package) => spec_apply(package, entries[n - 1]),
        }
    }
}

/// The package that `entries` assemble to.
pub open spec fn spec_assemble(entries: Seq<EntryView>) -> Result<PackageView, DecodeError> {
    spec_assemble_first(entries, entries.len())
}

/// Once an entry cannot be taken, the entries after it change nothing.
proof fn lemma_assemble_error(entries: Seq<EntryView>, m: nat, n: nat)
    requires
        m <= n,
        spec_assemble_first(entries, m) is Err,
    ensures
        spec_assemble_first(entries, n) == spec_assemble_first(entries, m),
    decreases n,
{
    if m < n {
        lemma_assemble_error(entries, m, (n - 1) as nat);
    }
}

impl Package {
    /// Takes one entry into the package.
    pub fn apply(&mut self, entry: &IndexEntry) -> (r: Result<(), DecodeError>)
        ensures
            match spec_apply(old(self)@, entry@) {
                Ok(package) => r is Ok && final(self)@ == package,
                Err(e) => r == Err::<(), DecodeError>(e) && final(self)@ == old(self)@,
            },
    {
        let field: Field = match Field::of_tag(entry.info.tag) {
            None => {
                return Ok(());
            },
            Some(field) => field,
        };
        let expected: TypeTag = field.expected_type();
        if entry.info.type_tag != expected {
            return Err(
                DecodeError::TypeMismatch {
                    tag: entry.info.tag,
                    expected,
                    found: entry.info.type_tag,
                },
            );
        }
        match field {
            Field::DirIndexes => {
                let v: Vec<i32> = entry.read_i32_array()?;
                self.dir_indexes = v;
            },
            Field::DirNames => {
                let v: Vec<String> = entry.read_string_array()?;
                self.dir_names = v;
            },
            Field::BaseNames => {
                let v: Vec<String> = entry.read_string_array()?;
                self.base_names = v;
            },
            Field::ModularityLabel => {
                let v: String = entry.read_string()?;
                self.modularitylabel = v;
            },
            Field::Name => {
                let v: String = entry.read_string()?;
                self.name = v;
            },
            Field::Epoch => {
                let v: i32 = entry.read_i32()?;
                self.epoch = v;
            },
            Field::Version => {
                let v: String = entry.read_string()?;
                self.version = v;
            },
            Field::Release => {
                let v: String = entry.read_string()?;
                self.release = v;
            },
            Field::Arch => {
                let v: String = entry.read_string()?;
                self.arch = v;
            },
            Field::SourceRpm => {
                let v: String = entry.read_string()?;
                self.source_rpm = normalize(v);
            },
            Field::License => {
                let v: String = entry.read_string()?;
                self.license = normalize(v);
            },
            Field::Vendor => {
                let v: String = entry.read_string()?;
                self.vendor = normalize(v);
            },
            Field::Size => {
                let v: i32 = entry.read_i32()?;
                self.size = v;
            },
            Field::Provides => {
                let v: Vec<String> = entry.read_string_array()?;
                self.provides = v;
            },
            Field::Requires => {
                let v: Vec<String> = entry.read_string_array()?;
                self.requires = v;
            },
        }
        Ok(())
    }

    /// Assembles a package from the entries of one header blob.
    ///
    /// The entries are taken in the order given, so of two entries that fill
    /// the same field the later one stands. Entries with tags that fill no
    /// field are passed over, and a field that no entry fills keeps its
    /// default. The first entry that fills a field but is stored under
    /// another type than the field's, or whose value does not read, fails
    /// the assembly.
    pub fn try_from(entries: Vec<IndexEntry>) -> (r: Result<Package, DecodeError>)
        ensures
            match spec_assemble(entry_views(entries@)) {
                Ok(package) => r matches Ok(p) && p@ == package,
                Err(e) => r == Err::<Package, DecodeError>(e),
            },
    {
        let ghost views = entry_views(entries@);
        let mut package: Package = Package::default();
        let n: usize = entries.len();
        let mut i: usize = 0;
        while i < n
            invariant
                i <= n,
                n == entries@.len(),
                views == entry_views(entries@),
                spec_assemble_first(views, i as nat) == Ok::<PackageView, DecodeError>(package@),
            decreases n - i,
        {
            match package.apply(&entries[i]) {
                Err(e) => {
                    proof {
                        assert(spec_assemble_first(views, (i + 1) as nat) == Err::<
                            PackageView,
                            DecodeError,
                        >(e));
                        lemma_assemble_error(views, (i + 1) as nat, n as nat);
                    }
                    return Err(e);
                },
                Ok(()) => {},
            }
            i += 1;
        }
        Ok(package)
    }
}

/// The placeholder "(none)" in the source package, the licence or the
/// vendor leaves the field empty; any other text is stored as it stands.
/// No other field is touched.
pub proof fn law_sentinel(package: PackageView, entry: EntryView, text: Seq<char>)
    requires
        entry.info.type_tag == TypeTag::String,
        entry.spec_read_string() == Ok::<Seq<char>, DecodeError>(text),
    ensures
        entry.info.tag == RPMTAG_SOURCERPM ==> spec_apply(package, entry) == Ok::<
            PackageView,
            DecodeError,
        >(
            PackageView {
                source_rpm: if text == "(none)"@ {
                    Seq::empty()
                } else {
                    text
                },
                ..package
            },
        ),
        entry.info.tag == RPMTAG_LICENSE ==> spec_apply(package, entry) == Ok::<
            PackageView,
            DecodeError,
        >(
            PackageView {
                license: if text == "(none)"@ {
                    Seq::empty()
                } else {
                    text
                },
                ..package
            },
        ),
        entry.info.tag == RPMTAG_VENDOR ==> spec_apply(package, entry) == Ok::<
            PackageView,
            DecodeError,
        >(
            PackageView {
                vendor: if text == "(none)"@ {
                    Seq::empty()
                } else {
                    text
                },
                ..package
            },
        ),
{
}

proof fn lemma_unknown_tags(entries: Seq<EntryView>, n: nat)
    requires
        n <= entries.len(),
        forall|i: int| 0 <= i < n ==> Field::spec_of_tag(#[trigger] entries[i].info.tag) is None,
    ensures
        spec_assemble_first(entries, n) == Ok::<PackageView, DecodeError>(
            PackageView::spec_default(),
        ),
    decreases n,
{
    if n > 0 {
        lemma_unknown_tags(entries, (n - 1) as nat);
        assert(Field::spec_of_tag(entries[n - 1].info.tag) is None);
    }
}

/// An entry with a tag that fills no field never fails the assembly and
/// changes nothing, whatever its type and its bytes.
pub proof fn law_unknown_tag(package: PackageView, entry: EntryView)
    requires
        Field::spec_of_tag(entry.info.tag) is None,
    ensures
        spec_apply(package, entry) == Ok::<PackageView, DecodeError>(package),
{
}

/// Entries with tags that fill no field, and no others, assemble to the
/// default package.
pub proof fn law_unknown_tags(entries: Seq<EntryView>)
    requires
        forall|i: int|
            0 <= i < entries.len() ==> Field::spec_of_tag(#[trigger] entries[i].info.tag) is None,
    ensures
        spec_assemble(entries) == Ok::<PackageView, DecodeError>(PackageView::spec_default()),
{
    lemma_unknown_tags(entries, entries.len());
}

/// An entry whose tag fills a field, stored under another type than the
/// field's, fails the assembly, and where the entries before it assemble,
/// the failure is the mismatch of that entry.
pub proof fn law_type_mismatch(entries: Seq<EntryView>, i: int, field: Field)
    requires
        0 <= i < entries.len(),
        Field::spec_of_tag(entries[i].info.tag) == Some(field),
        entries[i].info.type_tag != field.spec_expected_type(),
    ensures
        spec_assemble(entries) is Err,
        spec_assemble_first(entries, i as nat) is Ok ==> spec_assemble(entries) == Err::<
            PackageView,
            DecodeError,
        >(
            DecodeError::TypeMismatch {
                tag: entries[i].info.tag,
                expected: field.spec_expected_type(),
                found: entries[i].info.type_tag,
            },
        ),
{
    let upto = spec_assemble_first(entries, (i + 1) as nat);
    assert(upto is Err);
    lemma_assemble_error(entries, (i + 1) as nat, entries.len());
}

} // verus!
