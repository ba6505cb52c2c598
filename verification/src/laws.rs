//! Laws of the descriptor registry, stated and proved over the views that
//! the library's contracts use.

use vstd::prelude::*;
use crate::descriptor::{
    EnumView, MessageView, RegistryView, TypeView, enum_wf, message_wf, registry_wf,
    spec_resolve_refs, spec_resolve_message, spec_resolve_field, spec_resolve_type_ref,
    spec_add_message_proto, spec_message_from_proto, spec_fields_added, spec_field_from_proto,
    spec_empty_message, join_name, lemma_fields_added_name, spec_add_enums_upto,
    spec_add_message_protos_upto, spec_add_message_view,
};
use crate::proto::{FieldProto, MessageProto};
use crate::descriptor::{spec_add_file_proto, spec_add_file_set, FieldView};

verus! {

/// Law: in a well-formed message whose field names and numbers are
/// distinct, looking a field's name or number up in the message's indices
/// leads back to that very field.
pub proof fn lemma_message_field_roundtrip(m: MessageView, i: int)
    requires
        message_wf(m),
        0 <= i < m.fields.len(),
        forall|a: int, b: int| 0 <= a < b < m.fields.len() ==> m.fields[a].name
            != m.fields[b].name,
        forall|a: int, b: int| 0 <= a < b < m.fields.len() ==> m.fields[a].number
            != m.fields[b].number,
    ensures
        m.by_name.contains_key(m.fields[i].name),
        m.by_name[m.fields[i].name] == i,
        m.by_number.contains_key(m.fields[i].number),
        m.by_number[m.fields[i].number] == i,
{
    let k = m.fields[i].name;
    let j = m.by_name[k] as int;
    assert(m.fields[j].name == k);
    if j < i {
        assert(m.fields[j].name != m.fields[i].name);
    } else if i < j {
        assert(m.fields[i].name != m.fields[j].name);
    }
    let c = m.fields[i].number;
    let j2 = m.by_number[c] as int;
    assert(m.fields[j2].number == c);
    if j2 < i {
        assert(m.fields[j2].number != m.fields[i].number);
    } else if i < j2 {
        assert(m.fields[i].number != m.fields[j2].number);
    }
}

/// Law: in a well-formed enum whose value names and numbers are distinct,
/// looking a value's name or number up in the enum's indices leads back to
/// that very value.
pub proof fn lemma_enum_value_roundtrip(e: EnumView, i: int)
    requires
        enum_wf(e),
        0 <= i < e.values.len(),
        forall|a: int, b: int| 0 <= a < b < e.values.len() ==> e.values[a].name
            != e.values[b].name,
        forall|a: int, b: int| 0 <= a < b < e.values.len() ==> e.values[a].number
            != e.values[b].number,
    ensures
        e.by_name.contains_key(e.values[i].name),
        e.by_name[e.values[i].name] == i,
        e.by_number.contains_key(e.values[i].number),
        e.by_number[e.values[i].number] == i,
{
    let k = e.values[i].name;
    let j = e.by_name[k] as int;
    assert(e.values[j].name == k);
    if j < i {
        assert(e.values[j].name != e.values[i].name);
    } else if i < j {
        assert(e.values[i].name != e.values[j].name);
    }
    let c = e.values[i].number;
    let j2 = e.by_number[c] as int;
    assert(e.values[j2].number == c);
    if j2 < i {
        assert(e.values[j2].number != e.values[i].number);
    } else if i < j2 {
        assert(e.values[i].number != e.values[j2].number);
    }
}

/// Law: in a well-formed registry whose message names are distinct, the
/// name index maps each registered message's name back to that message;
/// same for enums with distinct names.
pub proof fn lemma_registry_name_roundtrip(r: RegistryView, i: int, j: int)
    requires
        registry_wf(r),
        0 <= i < r.messages.len(),
        0 <= j < r.enums.len(),
        forall|a: int, b: int| 0 <= a < b < r.messages.len() ==> r.messages[a].name
            != r.messages[b].name,
        forall|a: int, b: int| 0 <= a < b < r.enums.len() ==> r.enums[a].name
            != r.enums[b].name,
    ensures
        r.msg_index.contains_key(r.messages[i].name),
        r.msg_index[r.messages[i].name] == i,
        r.enum_index.contains_key(r.enums[j].name),
        r.enum_index[r.enums[j].name] == j,
{
    let k = r.messages[i].name;
    let a = r.msg_index[k] as int;
    assert(r.messages[a].name == k);
    if a < i {
        assert(r.messages[a].name != r.messages[i].name);
    } else if i < a {
        assert(r.messages[i].name != r.messages[a].name);
    }
    let k2 = r.enums[j].name;
    let b = r.enum_index[k2] as int;
    assert(r.enums[b].name == k2);
    if b < j {
        assert(r.enums[b].name != r.enums[j].name);
    } else if j < b {
        assert(r.enums[j].name != r.enums[b].name);
    }
}

/// Law: a resolution pass rewrites every reference whose target is in the
/// registry into a handle that leads to a descriptor carrying the
/// referenced name — the same descriptor a lookup of that name returns —
/// and leaves every other field type untouched.
pub proof fn lemma_resolve_refs_resolves(r: RegistryView, i: int, j: int)
    requires
        registry_wf(r),
        0 <= i < r.messages.len(),
        0 <= j < r.messages[i].fields.len(),
    ensures
        ({
            let r2 = spec_resolve_refs(r);
            let t2 = r2.messages[i].fields[j].ftype;
            match r.messages[i].fields[j].ftype {
                TypeView::UnresolvedMessage(n) => if r.msg_index.contains_key(n) {
                    &&& t2 == TypeView::Message(r.msg_index[n] as int)
                    &&& r2.msg_index == r.msg_index
                    &&& r2.messages[r.msg_index[n] as int].name == n
                } else {
                    t2 == TypeView::UnresolvedMessage(n)
                },
                TypeView::UnresolvedEnum(n) => if r.enum_index.contains_key(n) {
                    &&& t2 == TypeView::Enum(r.enum_index[n] as int)
                    &&& r2.enum_index == r.enum_index
                    &&& r2.enums[r.enum_index[n] as int].name == n
                } else {
                    t2 == TypeView::UnresolvedEnum(n)
                },
                TypeView::Message(h) => t2 == TypeView::Message(h),
                TypeView::Enum(h) => t2 == TypeView::Enum(h),
                _ => t2 == r.messages[i].fields[j].ftype,
            }
        }),
{
    let r2 = spec_resolve_refs(r);
    assert(r2.messages[i] == spec_resolve_message(r.messages[i], r.msg_index, r.enum_index));
    assert(r2.messages[i].fields[j] == spec_resolve_field(
        r.messages[i].fields[j],
        r.msg_index,
        r.enum_index,
    ));
}

/// Law: the resolution pass is idempotent — resolving an already resolved
/// registry changes nothing.
pub proof fn lemma_resolve_refs_idempotent(r: RegistryView)
    ensures
        spec_resolve_refs(spec_resolve_refs(r)) == spec_resolve_refs(r),
{
    let r2 = spec_resolve_refs(r);
    let r3 = spec_resolve_refs(r2);
    assert forall|i: int| 0 <= i < r2.messages.len() implies #[trigger] r3.messages[i]
        == r2.messages[i] by {
        let m = r.messages[i];
        let m2 = r2.messages[i];
        let m3 = r3.messages[i];
        assert(m2 == spec_resolve_message(m, r.msg_index, r.enum_index));
        assert(m3 == spec_resolve_message(m2, r2.msg_index, r2.enum_index));
        assert forall|j: int| 0 <= j < m2.fields.len() implies #[trigger] m3.fields[j]
            == m2.fields[j] by {
            assert(m2.fields[j] == spec_resolve_field(m.fields[j], r.msg_index, r.enum_index));
            assert(m3.fields[j] == spec_resolve_field(m2.fields[j], r2.msg_index, r2.enum_index));
            assert(spec_resolve_type_ref(
                spec_resolve_type_ref(m.fields[j].ftype, r.msg_index, r.enum_index),
                r.msg_index,
                r.enum_index,
            ) == spec_resolve_type_ref(m.fields[j].ftype, r.msg_index, r.enum_index));
            assert(m3.fields[j] =~= m2.fields[j]);
        }
        assert(m3.fields =~= m2.fields);
        assert(m3 =~= m2);
    }
    assert(r3.messages =~= r2.messages);
    assert(r3 =~= r2);
}

/// The fields a fold of decoded fields appends: field `m.fields.len() + i`
/// of the result is the decoded field `i`.
pub proof fn lemma_fields_added_fields(m: MessageView, fs: Vec<FieldProto>, n: int)
    requires
        0 <= n <= fs.len(),
    ensures
        spec_fields_added(m, fs, n).fields.len() == m.fields.len() + n,
        forall|i: int| 0 <= i < n ==> spec_fields_added(m, fs, n).fields[m.fields.len() + i]
            == spec_field_from_proto(#[trigger] fs[i]),
        forall|i: int| 0 <= i < m.fields.len() ==> #[trigger] spec_fields_added(m, fs, n).fields[i]
            == m.fields[i],
    decreases n,
{
    if n > 0 {
        lemma_fields_added_fields(m, fs, n - 1);
    }
}

/// Law: importing a decoded message registers it under its fully
/// qualified name, and — when its field numbers are distinct — looking a
/// field number up on the registered message leads to a field carrying
/// the source field's name: the declared schema survives the round trip
/// through the registry.
pub proof fn lemma_import_roundtrip(r: RegistryView, path: Seq<char>, p: MessageProto, i: int)
    requires
        0 <= i < p.field.len(),
        forall|a: int, b: int| 0 <= a < b < p.field.len() ==> p.field[a].name@
            != p.field[b].name@,
        forall|a: int, b: int| 0 <= a < b < p.field.len() ==> p.field[a].number
            != p.field[b].number,
    ensures
        ({
            let r2 = spec_add_message_proto(r, path, p);
            let fq = join_name(path, p.name@);
            let m = spec_message_from_proto(path, p);
            &&& r2.msg_index.contains_key(fq)
            &&& r2.messages.len() <= usize::MAX ==> r2.messages[r2.msg_index[fq] as int] == m
            &&& message_wf(m) ==> {
                &&& m.by_number.contains_key(p.field[i].number)
                &&& m.fields[m.by_number[p.field[i].number] as int].name == p.field[i].name@
            }
        }),
{
    let fq = join_name(path, p.name@);
    let m = spec_message_from_proto(path, p);
    lemma_fields_added_name(spec_empty_message(fq), p.field, p.field.len() as int);
    lemma_fields_added_fields(spec_empty_message(fq), p.field, p.field.len() as int);
    let r2 = spec_add_message_proto(r, path, p);
    let rmid = spec_add_enums_upto(
        spec_add_message_protos_upto(r, fq, p.nested_type, p.nested_type.len() as int),
        fq,
        p.enum_type,
        p.enum_type.len() as int,
    );
    assert(m.name == fq);
    assert(r2 == spec_add_message_view(rmid, m));
    assert(r2.msg_index.contains_key(fq));
    if r2.messages.len() <= usize::MAX {
        assert(rmid.messages.len() < usize::MAX);
        assert(r2.msg_index[fq] == rmid.messages.len() as usize);
        assert((rmid.messages.len() as usize) as int == rmid.messages.len() as int);
        assert(r2.messages[rmid.messages.len() as int] == m);
    }
    if message_wf(m) {
        assert(m.fields[i] == spec_field_from_proto(p.field[i]));
        assert forall|a: int, b: int| 0 <= a < b < m.fields.len() implies m.fields[a].name
            != m.fields[b].name && m.fields[a].number != m.fields[b].number by {
            assert(m.fields[a] == spec_field_from_proto(p.field[a]));
            assert(m.fields[b] == spec_field_from_proto(p.field[b]));
            assert(p.field[a].name@ != p.field[b].name@);
            assert(p.field[a].number != p.field[b].number);
        }
        lemma_message_field_roundtrip(m, i);
    }
}

} // verus!

verus! {

/// Whether `r2` extends `r`: every descriptor of `r` is still present in
/// `r2`, unchanged and at the same handle.
pub open spec fn registry_extends(r2: RegistryView, r: RegistryView) -> bool {
    &&& r2.messages.len() >= r.messages.len()
    &&& forall|i: int| 0 <= i < r.messages.len() ==> r2.messages[i] == #[trigger] r.messages[i]
    &&& r2.enums.len() >= r.enums.len()
    &&& forall|i: int| 0 <= i < r.enums.len() ==> r2.enums[i] == #[trigger] r.enums[i]
}

/// Extension is transitive.
proof fn lemma_extends_trans(r3: RegistryView, r2: RegistryView, r: RegistryView)
    requires
        registry_extends(r3, r2),
        registry_extends(r2, r),
    ensures
        registry_extends(r3, r),
{
}

/// Registering one more enum extends the registry.
proof fn lemma_add_enums_upto_extends(
    r: RegistryView,
    path: Seq<char>,
    es: Vec<crate::proto::EnumProto>,
    n: int,
)
    ensures
        registry_extends(spec_add_enums_upto(r, path, es, n), r),
    decreases n,
{
    if n > 0 {
        lemma_add_enums_upto_extends(r, path, es, n - 1);
    }
}

/// Importing one decoded message extends the registry.
proof fn lemma_add_message_proto_extends(r: RegistryView, path: Seq<char>, m: MessageProto)
    ensures
        registry_extends(spec_add_message_proto(r, path, m), r),
    decreases m, 0int,
{
    let fq = join_name(path, m.name@);
    let r1 = spec_add_message_protos_upto(r, fq, m.nested_type, m.nested_type.len() as int);
    let r2 = spec_add_enums_upto(r1, fq, m.enum_type, m.enum_type.len() as int);
    lemma_add_message_protos_upto_extends(r, fq, m.nested_type, m.nested_type.len() as int);
    lemma_add_enums_upto_extends(r1, fq, m.enum_type, m.enum_type.len() as int);
    lemma_extends_trans(r2, r1, r);
    assert(registry_extends(spec_add_message_view(r2, spec_message_from_proto(path, m)), r2));
    lemma_extends_trans(spec_add_message_proto(r, path, m), r2, r);
}

/// Importing a run of decoded messages extends the registry.
proof fn lemma_add_message_protos_upto_extends(
    r: RegistryView,
    path: Seq<char>,
    ms: Vec<MessageProto>,
    n: int,
)
    requires
        n <= ms.len(),
    ensures
        registry_extends(spec_add_message_protos_upto(r, path, ms, n), r),
    decreases ms, n,
{
    if n > 0 {
        lemma_add_message_protos_upto_extends(r, path, ms, n - 1);
        let prev = spec_add_message_protos_upto(r, path, ms, n - 1);
        lemma_add_message_proto_extends(prev, path, ms[n - 1]);
        lemma_extends_trans(spec_add_message_protos_upto(r, path, ms, n), prev, r);
    }
}

/// Importing one decoded file extends the registry.
proof fn lemma_add_file_proto_extends(r: RegistryView, f: crate::proto::FileProto)
    ensures
        registry_extends(spec_add_file_proto(r, f), r),
{
    let path = crate::descriptor::spec_package_path(f);
    let r1 = spec_add_message_protos_upto(r, path, f.message_type, f.message_type.len() as int);
    lemma_add_message_protos_upto_extends(r, path, f.message_type, f.message_type.len() as int);
    lemma_add_enums_upto_extends(r1, path, f.enum_type, f.enum_type.len() as int);
    lemma_extends_trans(spec_add_file_proto(r, f), r1, r);
}

/// Law: the import walk is append-only.  Every descriptor present before a
/// descriptor set is imported is still present afterwards, unchanged and
/// at the same handle: handles are stable for the life of the registry.
pub proof fn lemma_import_append_only(r: RegistryView, s: crate::proto::FileSetProto)
    ensures
        registry_extends(spec_add_file_set(r, s), r),
    decreases s.file.len(),
{
    lemma_add_files_upto_extends(r, s.file, s.file.len() as int);
}

/// Importing a run of decoded files extends the registry.
proof fn lemma_add_files_upto_extends(r: RegistryView, fs: Vec<crate::proto::FileProto>, n: int)
    ensures
        registry_extends(crate::descriptor::spec_add_files_upto(r, fs, n), r),
    decreases n,
{
    if n > 0 {
        lemma_add_files_upto_extends(r, fs, n - 1);
        let prev = crate::descriptor::spec_add_files_upto(r, fs, n - 1);
        lemma_add_file_proto_extends(prev, fs[n - 1]);
        lemma_extends_trans(crate::descriptor::spec_add_files_upto(r, fs, n), prev, r);
    }
}

} // verus!

verus! {

/// Whether the walk under `(path, m)` registers a message with the fully
/// qualified name `fq` and content `mv`: either the message itself, or
/// one of its nested messages, at any depth.
pub open spec fn message_proto_registers(
    path: Seq<char>,
    m: MessageProto,
    fq: Seq<char>,
    mv: MessageView,
) -> bool
    decreases m,
{
    ||| (fq == join_name(path, m.name@) && mv == spec_message_from_proto(path, m))
    ||| exists|i: int| 0 <= i < m.nested_type.len() && message_proto_registers(
        join_name(path, m.name@),
        #[trigger] m.nested_type[i],
        fq,
        mv,
    )
}

/// Whether the first `n` decoded messages of `ms` register `(fq, mv)`.
pub open spec fn message_protos_register(
    path: Seq<char>,
    ms: Vec<MessageProto>,
    n: int,
    fq: Seq<char>,
    mv: MessageView,
) -> bool {
    exists|i: int| 0 <= i < n && message_proto_registers(path, #[trigger] ms[i], fq, mv)
}

/// Whether the decoded file `f` registers `(fq, mv)`.
pub open spec fn file_proto_registers(
    f: crate::proto::FileProto,
    fq: Seq<char>,
    mv: MessageView,
) -> bool {
    message_protos_register(
        crate::descriptor::spec_package_path(f),
        f.message_type,
        f.message_type.len() as int,
        fq,
        mv,
    )
}

/// Whether the decoded set `s` registers `(fq, mv)`.
pub open spec fn file_set_registers(
    s: crate::proto::FileSetProto,
    fq: Seq<char>,
    mv: MessageView,
) -> bool {
    exists|i: int| 0 <= i < s.file.len() && file_proto_registers(#[trigger] s.file[i], fq, mv)
}

/// Whether the first `n` decoded files of `fs` register `(fq, mv)`.
pub open spec fn files_upto_register(
    fs: Vec<crate::proto::FileProto>,
    n: int,
    fq: Seq<char>,
    mv: MessageView,
) -> bool {
    exists|i: int| 0 <= i < n && file_proto_registers(#[trigger] fs[i], fq, mv)
}

/// Whether the registry's entry for `fq`, if there is one, points at a
/// message with content `mv`.
pub open spec fn fq_entry_ok(r: RegistryView, fq: Seq<char>, mv: MessageView) -> bool {
    r.msg_index.contains_key(fq) ==> r.msg_index[fq] < r.messages.len() && r.messages[(
    r.msg_index[fq]) as int] == mv
}

/// Registering enums changes neither the message sequence nor the message
/// index.
proof fn lemma_add_enums_upto_keeps_messages(
    r: RegistryView,
    path: Seq<char>,
    es: Vec<crate::proto::EnumProto>,
    n: int,
)
    ensures
        spec_add_enums_upto(r, path, es, n).messages == r.messages,
        spec_add_enums_upto(r, path, es, n).msg_index == r.msg_index,
    decreases n,
{
    if n > 0 {
        lemma_add_enums_upto_keeps_messages(r, path, es, n - 1);
    }
}

/// Importing one decoded message keeps the entry for `fq` pointing at
/// `mv`, keeps `fq` present if it was, and makes it present if the walk
/// under the message registers it — provided every registration of `fq`
/// below the message carries the content `mv`.
proof fn lemma_message_proto_fq_entry(
    r: RegistryView,
    path: Seq<char>,
    m: MessageProto,
    fq: Seq<char>,
    mv: MessageView,
)
    requires
        forall|mv2: MessageView| message_proto_registers(path, m, fq, mv2) ==> mv2 == mv,
        fq_entry_ok(r, fq, mv),
        spec_add_message_proto(r, path, m).messages.len() <= usize::MAX,
    ensures
        fq_entry_ok(spec_add_message_proto(r, path, m), fq, mv),
        r.msg_index.contains_key(fq) ==> spec_add_message_proto(
            r,
            path,
            m,
        ).msg_index.contains_key(fq),
        (exists|mv2: MessageView| message_proto_registers(path, m, fq, mv2))
            ==> spec_add_message_proto(r, path, m).msg_index.contains_key(fq),
    decreases m, 1int,
{
    let own = join_name(path, m.name@);
    let r1 = spec_add_message_protos_upto(r, own, m.nested_type, m.nested_type.len() as int);
    let r2 = spec_add_enums_upto(r1, own, m.enum_type, m.enum_type.len() as int);
    let sm = spec_message_from_proto(path, m);
    let rfinal = spec_add_message_proto(r, path, m);
    lemma_add_message_protos_upto_extends(r, own, m.nested_type, m.nested_type.len() as int);
    lemma_add_enums_upto_keeps_messages(r1, own, m.enum_type, m.enum_type.len() as int);
    assert forall|mv2: MessageView| #[trigger] message_protos_register(
        own,
        m.nested_type,
        m.nested_type.len() as int,
        fq,
        mv2,
    ) implies mv2 == mv by {
        let i = choose|i: int| 0 <= i < m.nested_type.len() && message_proto_registers(
            own,
            #[trigger] m.nested_type[i],
            fq,
            mv2,
        );
        assert(message_proto_registers(path, m, fq, mv2));
    }
    lemma_message_protos_fq_entry(r, own, m.nested_type, m.nested_type.len() as int, fq, mv);
    lemma_fields_added_name(
        crate::descriptor::spec_empty_message(own),
        m.field,
        m.field.len() as int,
    );
    assert(sm.name == own);
    assert(rfinal.messages == r2.messages.push(sm));
    assert(rfinal.msg_index == r2.msg_index.insert(own, r2.messages.len() as usize));
    if fq == own {
        assert(message_proto_registers(path, m, fq, sm));
        assert(sm == mv);
        assert(rfinal.msg_index[fq] == r2.messages.len() as usize);
        assert(rfinal.messages[r2.messages.len() as int] == sm);
        assert(fq_entry_ok(rfinal, fq, mv));
        assert(rfinal.msg_index.contains_key(fq));
    } else {
        assert(rfinal.msg_index.contains_key(fq) == r2.msg_index.contains_key(fq));
        if r2.msg_index.contains_key(fq) {
            assert(fq_entry_ok(r2, fq, mv));
            assert(rfinal.messages[(r2.msg_index[fq]) as int] == r2.messages[(
            r2.msg_index[fq]) as int]);
        }
        if exists|mv2: MessageView| message_proto_registers(path, m, fq, mv2) {
            let mv2 = choose|mv2: MessageView| message_proto_registers(path, m, fq, mv2);
            assert(exists|i: int| 0 <= i < m.nested_type.len() && message_proto_registers(
                own,
                #[trigger] m.nested_type[i],
                fq,
                mv2,
            ));
            assert(message_protos_register(
                own,
                m.nested_type,
                m.nested_type.len() as int,
                fq,
                mv2,
            ));
            assert(r1.msg_index.contains_key(fq));
        }
    }
}

/// As [`lemma_message_proto_fq_entry`], over a run of decoded messages.
proof fn lemma_message_protos_fq_entry(
    r: RegistryView,
    path: Seq<char>,
    ms: Vec<MessageProto>,
    n: int,
    fq: Seq<char>,
    mv: MessageView,
)
    requires
        n <= ms.len(),
        forall|mv2: MessageView| message_protos_register(path, ms, n, fq, mv2) ==> mv2 == mv,
        fq_entry_ok(r, fq, mv),
        spec_add_message_protos_upto(r, path, ms, n).messages.len() <= usize::MAX,
    ensures
        fq_entry_ok(spec_add_message_protos_upto(r, path, ms, n), fq, mv),
        r.msg_index.contains_key(fq) ==> spec_add_message_protos_upto(
            r,
            path,
            ms,
            n,
        ).msg_index.contains_key(fq),
        message_protos_register(path, ms, n, fq, mv) ==> spec_add_message_protos_upto(
            r,
            path,
            ms,
            n,
        ).msg_index.contains_key(fq),
    decreases ms, n,
{
    if n > 0 {
        let prev = spec_add_message_protos_upto(r, path, ms, n - 1);
        let last = ms[n - 1];
        assert forall|mv2: MessageView| #[trigger] message_protos_register(path, ms, n - 1, fq, mv2)
            implies mv2 == mv by {
            let i = choose|i: int| 0 <= i < n - 1 && message_proto_registers(
                path,
                #[trigger] ms[i],
                fq,
                mv2,
            );
            assert(message_protos_register(path, ms, n, fq, mv2));
        }
        assert forall|mv2: MessageView| #[trigger] message_proto_registers(path, last, fq, mv2)
            implies mv2 == mv by {
            assert(message_protos_register(path, ms, n, fq, mv2));
        }
        lemma_add_message_proto_extends(prev, path, last);
        lemma_message_protos_fq_entry(r, path, ms, n - 1, fq, mv);
        lemma_message_proto_fq_entry(prev, path, last, fq, mv);
        if message_protos_register(path, ms, n, fq, mv) {
            let i = choose|i: int| 0 <= i < n && message_proto_registers(
                path,
                #[trigger] ms[i],
                fq,
                mv,
            );
            if i < n - 1 {
                assert(message_protos_register(path, ms, n - 1, fq, mv));
            } else {
                assert(exists|mv2: MessageView| message_proto_registers(path, last, fq, mv2));
            }
        }
    }
}

/// As [`lemma_message_proto_fq_entry`], over one decoded file.
proof fn lemma_file_proto_fq_entry(
    r: RegistryView,
    f: crate::proto::FileProto,
    fq: Seq<char>,
    mv: MessageView,
)
    requires
        forall|mv2: MessageView| file_proto_registers(f, fq, mv2) ==> mv2 == mv,
        fq_entry_ok(r, fq, mv),
        spec_add_file_proto(r, f).messages.len() <= usize::MAX,
    ensures
        fq_entry_ok(spec_add_file_proto(r, f), fq, mv),
        r.msg_index.contains_key(fq) ==> spec_add_file_proto(r, f).msg_index.contains_key(fq),
        file_proto_registers(f, fq, mv) ==> spec_add_file_proto(r, f).msg_index.contains_key(fq),
{
    let path = crate::descriptor::spec_package_path(f);
    let r1 = spec_add_message_protos_upto(r, path, f.message_type, f.message_type.len() as int);
    lemma_add_enums_upto_keeps_messages(r1, path, f.enum_type, f.enum_type.len() as int);
    assert forall|mv2: MessageView| #[trigger] message_protos_register(
        path,
        f.message_type,
        f.message_type.len() as int,
        fq,
        mv2,
    ) implies mv2 == mv by {
        assert(file_proto_registers(f, fq, mv2));
    }
    lemma_message_protos_fq_entry(
        r,
        path,
        f.message_type,
        f.message_type.len() as int,
        fq,
        mv,
    );
    if file_proto_registers(f, fq, mv) {
        assert(message_protos_register(path, f.message_type, f.message_type.len() as int, fq, mv));
    }
}

/// Law: importing a descriptor set registers every message of the set,
/// nested ones included, under its fully qualified name.  If the set
/// derives the pair `(fq, M)`, and every message it derives under `fq`
/// has the same content `M`, then after the import the registry's index
/// holds `fq` and leads to exactly `M` — the source message survives the
/// round trip through the registry.
pub proof fn lemma_file_set_import_registers(
    r: RegistryView,
    s: crate::proto::FileSetProto,
    fq: Seq<char>,
    mv: MessageView,
)
    requires
        file_set_registers(s, fq, mv),
        forall|mv2: MessageView| file_set_registers(s, fq, mv2) ==> mv2 == mv,
        fq_entry_ok(r, fq, mv),
        spec_add_file_set(r, s).messages.len() <= usize::MAX,
    ensures
        spec_add_file_set(r, s).msg_index.contains_key(fq),
        spec_add_file_set(r, s).messages[(spec_add_file_set(r, s).msg_index[fq]) as int] == mv,
{
    assert forall|mv2: MessageView| #[trigger] files_upto_register(
        s.file,
        s.file.len() as int,
        fq,
        mv2,
    ) implies mv2 == mv by {
        assert(file_set_registers(s, fq, mv2));
    }
    assert(files_upto_register(s.file, s.file.len() as int, fq, mv)) by {
        let i = choose|i: int| 0 <= i < s.file.len() && file_proto_registers(
            #[trigger] s.file[i],
            fq,
            mv,
        );
        assert(file_proto_registers(s.file[i], fq, mv));
    }
    lemma_files_upto_fq_entry(r, s.file, s.file.len() as int, fq, mv);
}

/// As [`lemma_message_proto_fq_entry`], over a run of decoded files.
proof fn lemma_files_upto_fq_entry(
    r: RegistryView,
    fs: Vec<crate::proto::FileProto>,
    n: int,
    fq: Seq<char>,
    mv: MessageView,
)
    requires
        n <= fs.len(),
        forall|mv2: MessageView| #[trigger] files_upto_register(fs, n, fq, mv2) ==> mv2 == mv,
        fq_entry_ok(r, fq, mv),
        crate::descriptor::spec_add_files_upto(r, fs, n).messages.len() <= usize::MAX,
    ensures
        fq_entry_ok(crate::descriptor::spec_add_files_upto(r, fs, n), fq, mv),
        r.msg_index.contains_key(fq) ==> crate::descriptor::spec_add_files_upto(
            r,
            fs,
            n,
        ).msg_index.contains_key(fq),
        files_upto_register(fs, n, fq, mv) ==> crate::descriptor::spec_add_files_upto(
            r,
            fs,
            n,
        ).msg_index.contains_key(fq),
    decreases n,
{
    if n > 0 {
        let prev = crate::descriptor::spec_add_files_upto(r, fs, n - 1);
        let last = fs[n - 1];
        assert forall|mv2: MessageView| #[trigger] files_upto_register(fs, n - 1, fq, mv2)
            implies mv2 == mv by {
            let i = choose|i: int| 0 <= i < n - 1 && file_proto_registers(
                #[trigger] fs[i],
                fq,
                mv2,
            );
            assert(0 <= i < n && file_proto_registers(fs[i], fq, mv2));
            assert(file_proto_registers(fs[i], fq, mv2));
            assert(files_upto_register(fs, n, fq, mv2));
        }
        assert forall|mv2: MessageView| #[trigger] file_proto_registers(last, fq, mv2)
            implies mv2 == mv by {
            assert(files_upto_register(fs, n, fq, mv2));
        }
        lemma_add_file_proto_extends(prev, last);
        lemma_files_upto_fq_entry(r, fs, n - 1, fq, mv);
        lemma_file_proto_fq_entry(prev, last, fq, mv);
        if files_upto_register(fs, n, fq, mv) {
            let i = choose|i: int| 0 <= i < n && file_proto_registers(#[trigger] fs[i], fq, mv);
            if i < n - 1 {
                assert(files_upto_register(fs, n - 1, fq, mv));
            }
        }
    }
}

} // verus!

verus! {

/// Adding one field keeps a message view well formed.
proof fn lemma_field_added_wf(m: MessageView, f: FieldView)
    requires
        message_wf(m),
        m.fields.len() < usize::MAX,
    ensures
        message_wf(crate::descriptor::spec_field_added(m, f)),
{
    let m2 = crate::descriptor::spec_field_added(m, f);
    assert(m2.fields =~= m.fields.push(f));
    assert forall|k: Seq<char>| #[trigger] m2.by_name.contains_key(k) implies m2.by_name[k]
        < m2.fields.len() && m2.fields[m2.by_name[k] as int].name == k by {
        if k != f.name {
            assert(m.by_name.contains_key(k));
        }
    }
    assert forall|n: i32| #[trigger] m2.by_number.contains_key(n) implies m2.by_number[n]
        < m2.fields.len() && m2.fields[m2.by_number[n] as int].number == n by {
        if n != f.number {
            assert(m.by_number.contains_key(n));
        }
    }
    assert forall|i: int| 0 <= i < m2.fields.len() implies m2.by_name.contains_key(
        #[trigger] m2.fields[i].name,
    ) && m2.by_number.contains_key(m2.fields[i].number) by {
        if i < m.fields.len() {
            assert(m.by_name.contains_key(m.fields[i].name));
            assert(m.by_number.contains_key(m.fields[i].number));
        }
    }
}

/// A message view built by folding decoded fields onto a well-formed one
/// is well formed.
proof fn lemma_fields_added_wf(m: MessageView, fs: Vec<FieldProto>, n: int)
    requires
        message_wf(m),
        0 <= n <= fs.len(),
        m.fields.len() + n <= usize::MAX,
    ensures
        message_wf(spec_fields_added(m, fs, n)),
    decreases n,
{
    if n > 0 {
        lemma_fields_added_wf(m, fs, n - 1);
        lemma_fields_added_fields(m, fs, n - 1);
        lemma_field_added_wf(spec_fields_added(m, fs, n - 1), spec_field_from_proto(fs[n - 1]));
    }
}

/// Law: a schema survives the round trip through the registry.  When a
/// decoded set registers the source message `p` under its fully qualified
/// name `fq` — and registers nothing else under `fq` — then after the
/// import, looking `fq` up and then looking any source field's number up
/// returns a field carrying that source field's name and number.
pub proof fn lemma_set_import_field_roundtrip(
    r: RegistryView,
    s: crate::proto::FileSetProto,
    path: Seq<char>,
    p: MessageProto,
    fq: Seq<char>,
    i: int,
)
    requires
        fq == join_name(path, p.name@),
        file_set_registers(s, fq, spec_message_from_proto(path, p)),
        forall|mv2: MessageView| file_set_registers(s, fq, mv2) ==> mv2
            == spec_message_from_proto(path, p),
        fq_entry_ok(r, fq, spec_message_from_proto(path, p)),
        spec_add_file_set(r, s).messages.len() <= usize::MAX,
        p.field.len() <= usize::MAX,
        0 <= i < p.field.len(),
        forall|a: int, b: int| 0 <= a < b < p.field.len() ==> p.field[a].name@
            != p.field[b].name@,
        forall|a: int, b: int| 0 <= a < b < p.field.len() ==> p.field[a].number
            != p.field[b].number,
    ensures
        ({
            let r2 = spec_add_file_set(r, s);
            let m = r2.messages[(r2.msg_index[fq]) as int];
            &&& r2.msg_index.contains_key(fq)
            &&& m.by_number.contains_key(p.field[i].number)
            &&& m.fields[(m.by_number[p.field[i].number]) as int].name == p.field[i].name@
            &&& m.fields[(m.by_number[p.field[i].number]) as int].number == p.field[i].number
            &&& m.by_name.contains_key(p.field[i].name@)
            &&& m.fields[(m.by_name[p.field[i].name@]) as int].number == p.field[i].number
        }),
{
    let mv = spec_message_from_proto(path, p);
    lemma_file_set_import_registers(r, s, fq, mv);
    let r2 = spec_add_file_set(r, s);
    let m = r2.messages[(r2.msg_index[fq]) as int];
    assert(m == mv);
    lemma_fields_added_wf(spec_empty_message(fq), p.field, p.field.len() as int);
    lemma_fields_added_fields(spec_empty_message(fq), p.field, p.field.len() as int);
    assert(mv.fields[i] == spec_field_from_proto(p.field[i]));
    assert forall|a: int, b: int| 0 <= a < b < mv.fields.len() implies mv.fields[a].name
        != mv.fields[b].name && mv.fields[a].number != mv.fields[b].number by {
        assert(mv.fields[a] == spec_field_from_proto(p.field[a]));
        assert(mv.fields[b] == spec_field_from_proto(p.field[b]));
        assert(p.field[a].name@ != p.field[b].name@);
        assert(p.field[a].number != p.field[b].number);
    }
    lemma_message_field_roundtrip(mv, i);
}

} // verus!
