use vstd::prelude::*;
use vstd::slice::{slice_subrange, slice_to_vec};
use crate::document::{Document, EmbedRequest, Metadata};
use crate::json::{
    bytes_eq, escape_seq, number_array, number_array_spec, push_escaped_all, skip_value,
    skip_value_spec, skip_ws, skip_ws_spec, string_at, string_at_spec,
};
use crate::status::{status_of, Status};

verus! {

/// The bytes of the object key `page_content`.
pub open spec fn key_page_content() -> Seq<u8> {
    seq![0x70u8, 0x61u8, 0x67u8, 0x65u8, 0x5fu8, 0x63u8, 0x6fu8, 0x6eu8, 0x74u8, 0x65u8, 0x6eu8, 0x74u8]
}

fn key_page_content_vec() -> (v: Vec<u8>)
    ensures
        v@ == key_page_content(),
{
    let mut v: Vec<u8> = Vec::new();
    v.push(0x70);
    v.push(0x61);
    v.push(0x67);
    v.push(0x65);
    v.push(0x5f);
    v.push(0x63);
    v.push(0x6f);
    v.push(0x6e);
    v.push(0x74);
    v.push(0x65);
    v.push(0x6e);
    v.push(0x74);
    proof {
        assert(v@ =~= key_page_content());
    }
    v
}

/// The bytes of the object key `metadata`.
pub open spec fn key_metadata() -> Seq<u8> {
    seq![0x6du8, 0x65u8, 0x74u8, 0x61u8, 0x64u8, 0x61u8, 0x74u8, 0x61u8]
}

fn key_metadata_vec() -> (v: Vec<u8>)
    ensures
        v@ == key_metadata(),
{
    let mut v: Vec<u8> = Vec::new();
    v.push(0x6d);
    v.push(0x65);
    v.push(0x74);
    v.push(0x61);
    v.push(0x64);
    v.push(0x61);
    v.push(0x74);
    v.push(0x61);
    proof {
        assert(v@ =~= key_metadata());
    }
    v
}

/// The bytes of the object key `embeddings`.
pub open spec fn key_embeddings() -> Seq<u8> {
    seq![0x65u8, 0x6du8, 0x62u8, 0x65u8, 0x64u8, 0x64u8, 0x69u8, 0x6eu8, 0x67u8, 0x73u8]
}

fn key_embeddings_vec() -> (v: Vec<u8>)
    ensures
        v@ == key_embeddings(),
{
    let mut v: Vec<u8> = Vec::new();
    v.push(0x65);
    v.push(0x6d);
    v.push(0x62);
    v.push(0x65);
    v.push(0x64);
    v.push(0x64);
    v.push(0x69);
    v.push(0x6e);
    v.push(0x67);
    v.push(0x73);
    proof {
        assert(v@ =~= key_embeddings());
    }
    v
}

/// The bytes of the object key `embedding`.
pub open spec fn key_embedding() -> Seq<u8> {
    seq![0x65u8, 0x6du8, 0x62u8, 0x65u8, 0x64u8, 0x64u8, 0x69u8, 0x6eu8, 0x67u8]
}

fn key_embedding_vec() -> (v: Vec<u8>)
    ensures
        v@ == key_embedding(),
{
    let mut v: Vec<u8> = Vec::new();
    v.push(0x65);
    v.push(0x6d);
    v.push(0x62);
    v.push(0x65);
    v.push(0x64);
    v.push(0x64);
    v.push(0x69);
    v.push(0x6e);
    v.push(0x67);
    proof {
        assert(v@ =~= key_embedding());
    }
    v
}

/// The bytes of the object key `source`.
pub open spec fn key_source() -> Seq<u8> {
    seq![0x73u8, 0x6fu8, 0x75u8, 0x72u8, 0x63u8, 0x65u8]
}

fn key_source_vec() -> (v: Vec<u8>)
    ensures
        v@ == key_source(),
{
    let mut v: Vec<u8> = Vec::new();
    v.push(0x73);
    v.push(0x6f);
    v.push(0x75);
    v.push(0x72);
    v.push(0x63);
    v.push(0x65);
    proof {
        assert(v@ =~= key_source());
    }
    v
}

/// The bytes of the object key `content_type`.
pub open spec fn key_content_type() -> Seq<u8> {
    seq![0x63u8, 0x6fu8, 0x6eu8, 0x74u8, 0x65u8, 0x6eu8, 0x74u8, 0x5fu8, 0x74u8, 0x79u8, 0x70u8, 0x65u8]
}

fn key_content_type_vec() -> (v: Vec<u8>)
    ensures
        v@ == key_content_type(),
{
    let mut v: Vec<u8> = Vec::new();
    v.push(0x63);
    v.push(0x6f);
    v.push(0x6e);
    v.push(0x74);
    v.push(0x65);
    v.push(0x6e);
    v.push(0x74);
    v.push(0x5f);
    v.push(0x74);
    v.push(0x79);
    v.push(0x70);
    v.push(0x65);
    proof {
        assert(v@ =~= key_content_type());
    }
    v
}

/// The bytes of the object key `language`.
pub open spec fn key_language() -> Seq<u8> {
    seq![0x6cu8, 0x61u8, 0x6eu8, 0x67u8, 0x75u8, 0x61u8, 0x67u8, 0x65u8]
}

fn key_language_vec() -> (v: Vec<u8>)
    ensures
        v@ == key_language(),
{
    let mut v: Vec<u8> = Vec::new();
    v.push(0x6c);
    v.push(0x61);
    v.push(0x6e);
    v.push(0x67);
    v.push(0x75);
    v.push(0x61);
    v.push(0x67);
    v.push(0x65);
    proof {
        assert(v@ =~= key_language());
    }
    v
}

/// The bytes of the object key `content`.
pub open spec fn key_content() -> Seq<u8> {
    seq![0x63u8, 0x6fu8, 0x6eu8, 0x74u8, 0x65u8, 0x6eu8, 0x74u8]
}

fn key_content_vec() -> (v: Vec<u8>)
    ensures
        v@ == key_content(),
{
    let mut v: Vec<u8> = Vec::new();
    v.push(0x63);
    v.push(0x6f);
    v.push(0x6e);
    v.push(0x74);
    v.push(0x65);
    v.push(0x6e);
    v.push(0x74);
    proof {
        assert(v@ =~= key_content());
    }
    v
}

/// The content of an optional byte string.
pub open spec fn opt_bytes_view(o: Option<Vec<u8>>) -> Option<Seq<u8>> {
    match o {
        Some(v) => Some(v@),
        None => None,
    }
}

/// The contents of an optional metadata triple.
pub open spec fn opt_meta_view(o: Option<(Vec<u8>, Vec<u8>, Vec<u8>)>) -> Option<(Seq<u8>, Seq<
    u8,
>, Seq<u8>)> {
    match o {
        Some(m) => Some((m.0@, m.1@, m.2@)),
        None => None,
    }
}

/// The contents of an optional token list.
pub open spec fn opt_toks_view(o: Option<Vec<Vec<u8>>>) -> Option<Seq<Seq<u8>>> {
    match o {
        Some(t) => Some(t.deep_view()),
        None => None,
    }
}

/// The three metadata fields once the object closes at `end`: every field must
/// have appeared.
pub open spec fn meta_finish(
    src: Option<Seq<u8>>,
    ct: Option<Seq<u8>>,
    lang: Option<Seq<u8>>,
    end: int,
) -> Option<((Seq<u8>, Seq<u8>, Seq<u8>), int)> {
    match (src, ct, lang) {
        (Some(a), Some(b), Some(c)) => Some(((a, b, c), end)),
        _ => None,
    }
}

/// Scan the members of a metadata object from just after its opening brace (or
/// a comma, with `first` false): members may come in any order, the values of
/// `source`, `content_type` and `language` must be strings and each appear
/// exactly once, and members under any other key are skipped whole.
pub open spec fn meta_members_spec(
    s: Seq<u8>,
    i: int,
    first: bool,
    src: Option<Seq<u8>>,
    ct: Option<Seq<u8>>,
    lang: Option<Seq<u8>>,
    fuel: nat,
) -> Option<((Seq<u8>, Seq<u8>, Seq<u8>), int)>
    decreases fuel,
{
    if fuel == 0 {
        None
    } else {
        let w = skip_ws_spec(s, i);
        if first && w < s.len() && s[w] == 0x7d {
            meta_finish(src, ct, lang, w + 1)
        } else {
            match string_at_spec(s, w) {
                None => None,
                Some(k) => {
                    let c = skip_ws_spec(s, k.1);
                    if c < s.len() && s[c] == 0x3a {
                        let p = skip_ws_spec(s, c + 1);
                        let step: Option<((Option<Seq<u8>>, Option<Seq<u8>>, Option<Seq<u8>>),
                            int,
                        )> = if k.0 == key_source() {
                            if src is Some {
                                None
                            } else {
                                match string_at_spec(s, p) {
                                    None => None,
                                    Some(v) => Some(((Some(v.0), ct, lang), v.1)),
                                }
                            }
                        } else if k.0 == key_content_type() {
                            if ct is Some {
                                None
                            } else {
                                match string_at_spec(s, p) {
                                    None => None,
                                    Some(v) => Some(((src, Some(v.0), lang), v.1)),
                                }
                            }
                        } else if k.0 == key_language() {
                            if lang is Some {
                                None
                            } else {
                                match string_at_spec(s, p) {
                                    None => None,
                                    Some(v) => Some(((src, ct, Some(v.0)), v.1)),
                                }
                            }
                        } else {
                            match skip_value_spec(s, p, fuel) {
                                None => None,
                                Some(e) => Some(((src, ct, lang), e)),
                            }
                        };
                        match step {
                            None => None,
                            Some(st) => {
                                let w2 = skip_ws_spec(s, st.1);
                                if w2 < s.len() && s[w2] == 0x2c {
                                    meta_members_spec(
                                        s,
                                        w2 + 1,
                                        false,
                                        st.0.0,
                                        st.0.1,
                                        st.0.2,
                                        (fuel - 1) as nat,
                                    )
                                } else if w2 < s.len() && s[w2] == 0x7d {
                                    meta_finish(st.0.0, st.0.1, st.0.2, w2 + 1)
                                } else {
                                    None
                                }
                            },
                        }
                    } else {
                        None
                    }
                },
            }
        }
    }
}

/// The `source`, `content_type` and `language` strings of a metadata object
/// starting at `i`, in any member order and ignoring unknown members.
pub open spec fn metadata_spec(s: Seq<u8>, i: int, fuel: nat) -> Option<((Seq<u8>, Seq<u8>, Seq<
    u8,
>), int)> {
    if 0 <= i < s.len() && s[i] == 0x7b {
        meta_members_spec(s, i + 1, true, None, None, None, fuel)
    } else {
        None
    }
}

fn meta_finish_exec(
    src: Option<Vec<u8>>,
    ct: Option<Vec<u8>>,
    lang: Option<Vec<u8>>,
    end: usize,
) -> (r: Option<((Vec<u8>, Vec<u8>, Vec<u8>), usize)>)
    ensures
        (match r {
            Some((m, j)) => meta_finish(
                opt_bytes_view(src),
                opt_bytes_view(ct),
                opt_bytes_view(lang),
                end as int,
            ) == Some(((m.0@, m.1@, m.2@), j as int)) && j == end,
            None => meta_finish(
                opt_bytes_view(src),
                opt_bytes_view(ct),
                opt_bytes_view(lang),
                end as int,
            ) is None,
        }),
{
    match (src, ct, lang) {
        (Some(a), Some(b), Some(c)) => Some(((a, b, c), end)),
        _ => None,
    }
}

fn meta_members(
    s: &Vec<u8>,
    i: usize,
    first: bool,
    src: Option<Vec<u8>>,
    ct: Option<Vec<u8>>,
    lang: Option<Vec<u8>>,
    fuel: usize,
) -> (r: Option<((Vec<u8>, Vec<u8>, Vec<u8>), usize)>)
    requires
        i <= s@.len(),
    ensures
        (match r {
            Some((m, j)) => meta_members_spec(
                s@,
                i as int,
                first,
                opt_bytes_view(src),
                opt_bytes_view(ct),
                opt_bytes_view(lang),
                fuel as nat,
            ) == Some(((m.0@, m.1@, m.2@), j as int)) && j <= s@.len(),
            None => meta_members_spec(
                s@,
                i as int,
                first,
                opt_bytes_view(src),
                opt_bytes_view(ct),
                opt_bytes_view(lang),
                fuel as nat,
            ) is None,
        }),
    decreases fuel,
{
    if fuel == 0 {
        return None;
    }
    let w = skip_ws(s, i);
    if first && w < s.len() && s[w] == 0x7d {
        return meta_finish_exec(src, ct, lang, w + 1);
    }
    let (k, j) = match string_at(s, w) {
        None => {
            return None;
        },
        Some(x) => x,
    };
    let c = skip_ws(s, j);
    if !(c < s.len() && s[c] == 0x3a) {
        return None;
    }
    let p = skip_ws(s, c + 1);
    let k_src = key_source_vec();
    let k_ct = key_content_type_vec();
    let k_lang = key_language_vec();
    let step: Option<((Option<Vec<u8>>, Option<Vec<u8>>, Option<Vec<u8>>), usize)> = if bytes_eq(
        &k,
        &k_src,
    ) {
        if src.is_some() {
            None
        } else {
            match string_at(s, p) {
                None => None,
                Some((v, e)) => Some(((Some(v), ct, lang), e)),
            }
        }
    } else if bytes_eq(&k, &k_ct) {
        if ct.is_some() {
            None
        } else {
            match string_at(s, p) {
                None => None,
                Some((v, e)) => Some(((src, Some(v), lang), e)),
            }
        }
    } else if bytes_eq(&k, &k_lang) {
        if lang.is_some() {
            None
        } else {
            match string_at(s, p) {
                None => None,
                Some((v, e)) => Some(((src, ct, Some(v)), e)),
            }
        }
    } else {
        match skip_value(s, p, fuel) {
            None => None,
            Some(e) => Some(((src, ct, lang), e)),
        }
    };
    match step {
        None => None,
        Some((st, e)) => {
            let w2 = skip_ws(s, e);
            if w2 < s.len() && s[w2] == 0x2c {
                meta_members(s, w2 + 1, false, st.0, st.1, st.2, fuel - 1)
            } else if w2 < s.len() && s[w2] == 0x7d {
                meta_finish_exec(st.0, st.1, st.2, w2 + 1)
            } else {
                None
            }
        },
    }
}

/// The document fields once the top-level object closes at `end`: the content
/// and the metadata must have appeared; an absent `embeddings` member means an
/// empty token list.
pub open spec fn doc_finish(
    content: Option<Seq<u8>>,
    meta: Option<(Seq<u8>, Seq<u8>, Seq<u8>)>,
    emb: Option<Seq<Seq<u8>>>,
    end: int,
) -> Option<((Seq<u8>, (Seq<u8>, Seq<u8>, Seq<u8>), Seq<Seq<u8>>), int)> {
    match (content, meta) {
        (Some(ct), Some(m)) => Some(
            (
                (
                    ct,
                    m,
                    (match emb {
                        Some(t) => t,
                        None => Seq::<Seq<u8>>::empty(),
                    }),
                ),
                end,
            ),
        ),
        _ => None,
    }
}

/// Scan the members of the top-level document object from just after its
/// opening brace (or a comma, with `first` false): members may come in any
/// order, `page_content` must be a string, `metadata` a metadata object and
/// `embeddings` a number array, the first two must appear exactly once and the
/// third at most once, and members under any other key are skipped whole.
pub open spec fn doc_members_spec(
    s: Seq<u8>,
    i: int,
    first: bool,
    content: Option<Seq<u8>>,
    meta: Option<(Seq<u8>, Seq<u8>, Seq<u8>)>,
    emb: Option<Seq<Seq<u8>>>,
    fuel: nat,
) -> Option<((Seq<u8>, (Seq<u8>, Seq<u8>, Seq<u8>), Seq<Seq<u8>>), int)>
    decreases fuel,
{
    if fuel == 0 {
        None
    } else {
        let w = skip_ws_spec(s, i);
        if first && w < s.len() && s[w] == 0x7d {
            doc_finish(content, meta, emb, w + 1)
        } else {
            match string_at_spec(s, w) {
                None => None,
                Some(k) => {
                    let c = skip_ws_spec(s, k.1);
                    if c < s.len() && s[c] == 0x3a {
                        let p = skip_ws_spec(s, c + 1);
                        let step: Option<((Option<Seq<u8>>, Option<(Seq<u8>, Seq<u8>, Seq<u8>)>,
                            Option<Seq<Seq<u8>>>,
                        ), int)> = if k.0 == key_page_content() {
                            if content is Some {
                                None
                            } else {
                                match string_at_spec(s, p) {
                                    None => None,
                                    Some(v) => Some(((Some(v.0), meta, emb), v.1)),
                                }
                            }
                        } else if k.0 == key_metadata() {
                            if meta is Some {
                                None
                            } else {
                                match metadata_spec(s, p, fuel) {
                                    None => None,
                                    Some(m) => Some(((content, Some(m.0), emb), m.1)),
                                }
                            }
                        } else if k.0 == key_embeddings() {
                            if emb is Some {
                                None
                            } else {
                                match number_array_spec(s, p) {
                                    None => None,
                                    Some(a) => Some(((content, meta, Some(a.0)), a.1)),
                                }
                            }
                        } else {
                            match skip_value_spec(s, p, fuel) {
                                None => None,
                                Some(e) => Some(((content, meta, emb), e)),
                            }
                        };
                        match step {
                            None => None,
                            Some(st) => {
                                let w2 = skip_ws_spec(s, st.1);
                                if w2 < s.len() && s[w2] == 0x2c {
                                    doc_members_spec(
                                        s,
                                        w2 + 1,
                                        false,
                                        st.0.0,
                                        st.0.1,
                                        st.0.2,
                                        (fuel - 1) as nat,
                                    )
                                } else if w2 < s.len() && s[w2] == 0x7d {
                                    doc_finish(st.0.0, st.0.1, st.0.2, w2 + 1)
                                } else {
                                    None
                                }
                            },
                        }
                    } else {
                        None
                    }
                },
            }
        }
    }
}

fn doc_finish_exec(
    content: Option<Vec<u8>>,
    meta: Option<(Vec<u8>, Vec<u8>, Vec<u8>)>,
    emb: Option<Vec<Vec<u8>>>,
    end: usize,
) -> (r: Option<((Vec<u8>, (Vec<u8>, Vec<u8>, Vec<u8>), Vec<Vec<u8>>), usize)>)
    ensures
        (match r {
            Some((d, j)) => doc_finish(
                opt_bytes_view(content),
                opt_meta_view(meta),
                opt_toks_view(emb),
                end as int,
            ) == Some(((d.0@, (d.1.0@, d.1.1@, d.1.2@), d.2.deep_view()), j as int)) && j == end,
            None => doc_finish(
                opt_bytes_view(content),
                opt_meta_view(meta),
                opt_toks_view(emb),
                end as int,
            ) is None,
        }),
{
    let ghost embv = opt_toks_view(emb);
    match (content, meta) {
        (Some(ct), Some(m)) => {
            let toks: Vec<Vec<u8>> = match emb {
                Some(t) => t,
                None => Vec::new(),
            };
            proof {
                if embv is None {
                    assert(toks.deep_view() =~= Seq::<Seq<u8>>::empty());
                }
            }
            Some(((ct, m, toks), end))
        },
        _ => None,
    }
}

fn doc_members(
    s: &Vec<u8>,
    i: usize,
    first: bool,
    content: Option<Vec<u8>>,
    meta: Option<(Vec<u8>, Vec<u8>, Vec<u8>)>,
    emb: Option<Vec<Vec<u8>>>,
    fuel: usize,
) -> (r: Option<((Vec<u8>, (Vec<u8>, Vec<u8>, Vec<u8>), Vec<Vec<u8>>), usize)>)
    requires
        i <= s@.len(),
    ensures
        (match r {
            Some((d, j)) => doc_members_spec(
                s@,
                i as int,
                first,
                opt_bytes_view(content),
                opt_meta_view(meta),
                opt_toks_view(emb),
                fuel as nat,
            ) == Some(((d.0@, (d.1.0@, d.1.1@, d.1.2@), d.2.deep_view()), j as int)) && j
                <= s@.len(),
            None => doc_members_spec(
                s@,
                i as int,
                first,
                opt_bytes_view(content),
                opt_meta_view(meta),
                opt_toks_view(emb),
                fuel as nat,
            ) is None,
        }),
    decreases fuel,
{
    if fuel == 0 {
        return None;
    }
    let w = skip_ws(s, i);
    if first && w < s.len() && s[w] == 0x7d {
        return doc_finish_exec(content, meta, emb, w + 1);
    }
    let (k, j) = match string_at(s, w) {
        None => {
            return None;
        },
        Some(x) => x,
    };
    let c = skip_ws(s, j);
    if !(c < s.len() && s[c] == 0x3a) {
        return None;
    }
    let p = skip_ws(s, c + 1);
    let k_pc = key_page_content_vec();
    let k_md = key_metadata_vec();
    let k_em = key_embeddings_vec();
    let step: Option<((Option<Vec<u8>>, Option<(Vec<u8>, Vec<u8>, Vec<u8>)>, Option<Vec<Vec<u8>>>),
        usize,
    )> = if bytes_eq(&k, &k_pc) {
        if content.is_some() {
            None
        } else {
            match string_at(s, p) {
                None => None,
                Some((v, e)) => Some(((Some(v), meta, emb), e)),
            }
        }
    } else if bytes_eq(&k, &k_md) {
        if meta.is_some() {
            None
        } else {
            match parse_metadata_object(s, p, fuel) {
                None => None,
                Some((m, e)) => Some(((content, Some(m), emb), e)),
            }
        }
    } else if bytes_eq(&k, &k_em) {
        if emb.is_some() {
            None
        } else {
            match number_array(s, p) {
                None => None,
                Some((t, e)) => Some(((content, meta, Some(t)), e)),
            }
        }
    } else {
        match skip_value(s, p, fuel) {
            None => None,
            Some(e) => Some(((content, meta, emb), e)),
        }
    };
    match step {
        None => None,
        Some((st, e)) => {
            let w2 = skip_ws(s, e);
            if w2 < s.len() && s[w2] == 0x2c {
                doc_members(s, w2 + 1, false, st.0, st.1, st.2, fuel - 1)
            } else if w2 < s.len() && s[w2] == 0x7d {
                doc_finish_exec(st.0, st.1, st.2, w2 + 1)
            } else {
                None
            }
        },
    }
}

fn parse_metadata_object(s: &Vec<u8>, i: usize, fuel: usize) -> (r: Option<((Vec<u8>, Vec<u8>, Vec<
    u8,
>), usize)>)
    requires
        i <= s@.len(),
    ensures
        (match r {
            Some((m, j)) => metadata_spec(s@, i as int, fuel as nat) == Some(
                ((m.0@, m.1@, m.2@), j as int),
            ) && j <= s@.len(),
            None => metadata_spec(s@, i as int, fuel as nat) is None,
        }),
{
    if i < s.len() && s[i] == 0x7b {
        meta_members(s, i + 1, true, None, None, None, fuel)
    } else {
        None
    }
}

/// The decoded fields of one well-formed input line, in order: page content,
/// metadata source, metadata content type, metadata language, and the number
/// tokens of the optional `embeddings` array (empty when the member is absent
/// or its array is empty). The line must be one JSON object whose members may
/// come in any order; unknown members are ignored.
pub open spec fn line_spec(s: Seq<u8>) -> Option<(Seq<u8>, Seq<u8>, Seq<u8>, Seq<u8>, Seq<
    Seq<u8>,
>)> {
    let w0 = skip_ws_spec(s, 0);
    if w0 < s.len() && s[w0] == 0x7b {
        match doc_members_spec(s, w0 + 1, true, None, None, None, s.len() as nat) {
            None => None,
            Some(d) => {
                if skip_ws_spec(s, d.1) == s.len() {
                    Some((d.0.0, d.0.1.0, d.0.1.1, d.0.1.2, d.0.2))
                } else {
                    None
                }
            },
        }
    } else {
        None
    }
}

/// Parse one input line into a document and the number tokens of its optional
/// `embeddings` member.
///
/// Exactly the lines `line_spec` accepts yield a record — one record per
/// well-formed line, none for a malformed one — and the parser itself never
/// fails. The returned document carries an empty vector; the caller narrows
/// the tokens, if any, to single precision and attaches them.
pub fn parse_document_line(line: &Vec<u8>) -> (r: Option<(Document, Vec<Vec<u8>>)>)
    ensures
        (match r {
            Some((d, toks)) => line_spec(line@) == Some(
                (
                    d.page_content@,
                    d.metadata.source@,
                    d.metadata.content_type@,
                    d.metadata.language@,
                    toks.deep_view(),
                ),
            ) && d.embeddings@.len() == 0,
            None => line_spec(line@) is None,
        }),
{
    let s = line;
    let w0 = skip_ws(s, 0);
    if !(w0 < s.len() && s[w0] == 0x7b) {
        return None;
    }
    let (fields, end) = match doc_members(s, w0 + 1, true, None, None, None, s.len()) {
        None => {
            return None;
        },
        Some(x) => x,
    };
    if skip_ws(s, end) == s.len() {
        let d = Document {
            page_content: fields.0,
            metadata: Metadata {
                source: fields.1.0,
                content_type: fields.1.1,
                language: fields.1.2,
            },
            embeddings: Vec::new(),
        };
        Some((d, fields.2))
    } else {
        None
    }
}

/// The token list once the response object closes at `end`: the `embedding`
/// member must have appeared.
pub open spec fn resp_finish(emb: Option<Seq<Seq<u8>>>, end: int) -> Option<(Seq<Seq<u8>>, int)> {
    match emb {
        Some(t) => Some((t, end)),
        None => None,
    }
}

/// Scan the members of a response object from just after its opening brace (or
/// a comma, with `first` false): members may come in any order, `embedding`
/// must be a number array and appear exactly once, and members under any other
/// key are skipped whole.
pub open spec fn resp_members_spec(
    s: Seq<u8>,
    i: int,
    first: bool,
    emb: Option<Seq<Seq<u8>>>,
    fuel: nat,
) -> Option<(Seq<Seq<u8>>, int)>
    decreases fuel,
{
    if fuel == 0 {
        None
    } else {
        let w = skip_ws_spec(s, i);
        if first && w < s.len() && s[w] == 0x7d {
            resp_finish(emb, w + 1)
        } else {
            match string_at_spec(s, w) {
                None => None,
                Some(k) => {
                    let c = skip_ws_spec(s, k.1);
                    if c < s.len() && s[c] == 0x3a {
                        let p = skip_ws_spec(s, c + 1);
                        let step: Option<(Option<Seq<Seq<u8>>>, int)> = if k.0 == key_embedding() {
                            if emb is Some {
                                None
                            } else {
                                match number_array_spec(s, p) {
                                    None => None,
                                    Some(a) => Some((Some(a.0), a.1)),
                                }
                            }
                        } else {
                            match skip_value_spec(s, p, fuel) {
                                None => None,
                                Some(e) => Some((emb, e)),
                            }
                        };
                        match step {
                            None => None,
                            Some(st) => {
                                let w2 = skip_ws_spec(s, st.1);
                                if w2 < s.len() && s[w2] == 0x2c {
                                    resp_members_spec(s, w2 + 1, false, st.0, (fuel - 1) as nat)
                                } else if w2 < s.len() && s[w2] == 0x7d {
                                    resp_finish(st.0, w2 + 1)
                                } else {
                                    None
                                }
                            },
                        }
                    } else {
                        None
                    }
                },
            }
        }
    }
}

fn resp_members(s: &Vec<u8>, i: usize, first: bool, emb: Option<Vec<Vec<u8>>>, fuel: usize) -> (r:
    Option<(Vec<Vec<u8>>, usize)>)
    requires
        i <= s@.len(),
    ensures
        (match r {
            Some((t, j)) => resp_members_spec(
                s@,
                i as int,
                first,
                opt_toks_view(emb),
                fuel as nat,
            ) == Some((t.deep_view(), j as int)) && j <= s@.len(),
            None => resp_members_spec(s@, i as int, first, opt_toks_view(emb), fuel as nat)
                is None,
        }),
    decreases fuel,
{
    if fuel == 0 {
        return None;
    }
    let w = skip_ws(s, i);
    if first && w < s.len() && s[w] == 0x7d {
        return match emb {
            Some(t) => Some((t, w + 1)),
            None => None,
        };
    }
    let (k, j) = match string_at(s, w) {
        None => {
            return None;
        },
        Some(x) => x,
    };
    let c = skip_ws(s, j);
    if !(c < s.len() && s[c] == 0x3a) {
        return None;
    }
    let p = skip_ws(s, c + 1);
    let k_em = key_embedding_vec();
    let step: Option<(Option<Vec<Vec<u8>>>, usize)> = if bytes_eq(&k, &k_em) {
        if emb.is_some() {
            None
        } else {
            match number_array(s, p) {
                None => None,
                Some((t, e)) => Some((Some(t), e)),
            }
        }
    } else {
        match skip_value(s, p, fuel) {
            None => None,
            Some(e) => Some((emb, e)),
        }
    };
    match step {
        None => None,
        Some((st, e)) => {
            let w2 = skip_ws(s, e);
            if w2 < s.len() && s[w2] == 0x2c {
                resp_members(s, w2 + 1, false, st, fuel - 1)
            } else if w2 < s.len() && s[w2] == 0x7d {
                match st {
                    Some(t) => Some((t, w2 + 1)),
                    None => None,
                }
            } else {
                None
            }
        },
    }
}

/// The number tokens of a well-formed embedding response: one JSON object
/// whose `embedding` member holds a number array, in any member order and
/// ignoring unknown members.
pub open spec fn embed_response_spec(s: Seq<u8>) -> Option<Seq<Seq<u8>>> {
    let w0 = skip_ws_spec(s, 0);
    if w0 < s.len() && s[w0] == 0x7b {
        match resp_members_spec(s, w0 + 1, true, None, s.len() as nat) {
            None => None,
            Some(r) => {
                if skip_ws_spec(s, r.1) == s.len() {
                    Some(r.0)
                } else {
                    None
                }
            },
        }
    } else {
        None
    }
}

/// Parse an inference response body into its vector's number tokens: exactly
/// the bodies `embed_response_spec` accepts yield tokens; anything else is an
/// unparsable response, which the embedding stage treats as a failure for
/// that one document.
pub fn parse_embed_response(body: &Vec<u8>) -> (r: Option<Vec<Vec<u8>>>)
    ensures
        (match r {
            Some(toks) => embed_response_spec(body@) == Some(toks.deep_view()),
            None => embed_response_spec(body@) is None,
        }),
{
    let s = body;
    let w0 = skip_ws(s, 0);
    if !(w0 < s.len() && s[w0] == 0x7b) {
        return None;
    }
    let (toks, end) = match resp_members(s, w0 + 1, true, None, s.len()) {
        None => {
            return None;
        },
        Some(x) => x,
    };
    if skip_ws(s, end) == s.len() {
        Some(toks)
    } else {
        None
    }
}

/// The request body asking the inference service to embed `content`:
/// `{"content":"<escaped content>"}`.
pub open spec fn request_body_spec(content: Seq<u8>) -> Seq<u8> {
    seq![0x7bu8, 0x22u8] + key_content() + seq![0x22u8, 0x3au8, 0x22u8] + escape_seq(content)
        + seq![0x22u8, 0x7du8]
}

/// Serialize an embedding request.
pub fn embed_request_body(req: &EmbedRequest) -> (v: Vec<u8>)
    ensures
        v@ == request_body_spec(req.content@),
{
    let mut v: Vec<u8> = Vec::new();
    v.push(0x7b);
    v.push(0x22);
    let mut key = key_content_vec();
    v.append(&mut key);
    v.push(0x22);
    v.push(0x3a);
    v.push(0x22);
    push_escaped_all(&mut v, &req.content);
    v.push(0x22);
    v.push(0x7d);
    proof {
        assert(v@ =~= request_body_spec(req.content@));
    }
    v
}

/// The store payload written with each point: the three key/value pairs
/// `source`, `content_type` and `language`, in that order, carrying the
/// document's metadata.
pub fn payload_pairs(m: &Metadata) -> (r: Vec<(Vec<u8>, Vec<u8>)>)
    ensures
        r@.len() == 3,
        r@[0].0@ == key_source() && r@[0].1@ == m.source@,
        r@[1].0@ == key_content_type() && r@[1].1@ == m.content_type@,
        r@[2].0@ == key_language() && r@[2].1@ == m.language@,
{
    let mut r: Vec<(Vec<u8>, Vec<u8>)> = Vec::new();
    r.push((key_source_vec(), slice_to_vec(m.source.as_slice())));
    r.push((key_content_type_vec(), slice_to_vec(m.content_type.as_slice())));
    r.push((key_language_vec(), slice_to_vec(m.language.as_slice())));
    r
}

/// The value of an object member `string : value` starting at `i`, with the
/// end index just after the value: the value's text when the value is a
/// string, nothing when it is any other JSON value.
pub open spec fn pair_spec(s: Seq<u8>, i: int, fuel: nat) -> Option<(Option<Seq<u8>>, int)> {
    match string_at_spec(s, i) {
        None => None,
        Some(k) => {
            let c = skip_ws_spec(s, k.1);
            if c < s.len() && s[c] == 0x3a {
                let v0 = skip_ws_spec(s, c + 1);
                if v0 < s.len() && s[v0] == 0x22 {
                    match string_at_spec(s, v0) {
                        None => None,
                        Some(v) => Some((Some(v.0), v.1)),
                    }
                } else {
                    match skip_value_spec(s, v0, fuel) {
                        None => None,
                        Some(e) => Some((None, e)),
                    }
                }
            } else {
                None
            }
        },
    }
}

fn parse_pair(s: &Vec<u8>, i: usize, fuel: usize) -> (r: Option<(Option<Vec<u8>>, usize)>)
    requires
        i <= s@.len(),
    ensures
        (match r {
            Some((v, j)) => pair_spec(s@, i as int, fuel as nat) == Some(
                (opt_bytes_view(v), j as int),
            ) && i < j <= s@.len(),
            None => pair_spec(s@, i as int, fuel as nat) is None,
        }),
{
    let (_k, j) = match string_at(s, i) {
        None => {
            return None;
        },
        Some(x) => x,
    };
    let c = skip_ws(s, j);
    if !(c < s.len() && s[c] == 0x3a) {
        return None;
    }
    let v0 = skip_ws(s, c + 1);
    if v0 < s.len() && s[v0] == 0x22 {
        match string_at(s, v0) {
            None => None,
            Some((v, e)) => Some((Some(v), e)),
        }
    } else {
        match skip_value(s, v0, fuel) {
            None => None,
            Some(e) => Some((None, e)),
        }
    }
}

/// After one member of the health object: zero or more further members (string
/// keys, any JSON values) and the closing brace, with the end index just after
/// it.
pub open spec fn pairs_tail_spec(s: Seq<u8>, i: int, fuel: nat) -> Option<int>
    decreases fuel,
{
    if fuel == 0 {
        None
    } else {
        let w = skip_ws_spec(s, i);
        if w < s.len() && s[w] == 0x7d {
            Some(w + 1)
        } else if w < s.len() && s[w] == 0x2c {
            let n = skip_ws_spec(s, w + 1);
            match pair_spec(s, n, fuel) {
                None => None,
                Some(p) => pairs_tail_spec(s, p.1, (fuel - 1) as nat),
            }
        } else {
            None
        }
    }
}

fn parse_pairs_tail(s: &Vec<u8>, i: usize, fuel: usize) -> (r: Option<usize>)
    requires
        i <= s@.len(),
    ensures
        (match r {
            Some(j) => pairs_tail_spec(s@, i as int, fuel as nat) == Some(j as int) && j
                <= s@.len(),
            None => pairs_tail_spec(s@, i as int, fuel as nat) is None,
        }),
    decreases fuel,
{
    if fuel == 0 {
        return None;
    }
    let w = skip_ws(s, i);
    if w < s.len() && s[w] == 0x7d {
        Some(w + 1)
    } else if w < s.len() && s[w] == 0x2c {
        let n = skip_ws(s, w + 1);
        match parse_pair(s, n, fuel) {
            None => None,
            Some((_v, j)) => parse_pairs_tail(s, j, fuel - 1),
        }
    } else {
        None
    }
}

/// The readiness status a health body reports: a JSON object whose first
/// member's value names the status when it is a string; an empty object, or a
/// first value of any other JSON kind, reports no usable status and counts as
/// unknown. Anything that is not such an object is malformed, which aborts
/// startup.
pub open spec fn health_spec(s: Seq<u8>) -> Option<Status> {
    let w0 = skip_ws_spec(s, 0);
    if w0 < s.len() && s[w0] == 0x7b {
        let w1 = skip_ws_spec(s, w0 + 1);
        if w1 < s.len() && s[w1] == 0x7d {
            if skip_ws_spec(s, w1 + 1) == s.len() {
                Some(Status::Unknown)
            } else {
                None
            }
        } else {
            match pair_spec(s, w1, s.len() as nat) {
                None => None,
                Some(p) => match pairs_tail_spec(s, p.1, s.len() as nat) {
                    None => None,
                    Some(e) => {
                        if skip_ws_spec(s, e) == s.len() {
                            Some(
                                (match p.0 {
                                    Some(text) => status_of(text),
                                    None => Status::Unknown,
                                }),
                            )
                        } else {
                            None
                        }
                    },
                },
            }
        }
    } else {
        None
    }
}

/// Decode a health body into the service's readiness status; `None` means the
/// body was malformed.
pub fn health_status(body: &Vec<u8>) -> (r: Option<Status>)
    ensures
        r == health_spec(body@),
{
    let s = body;
    let w0 = skip_ws(s, 0);
    if !(w0 < s.len() && s[w0] == 0x7b) {
        return None;
    }
    let w1 = skip_ws(s, w0 + 1);
    if w1 < s.len() && s[w1] == 0x7d {
        if skip_ws(s, w1 + 1) == s.len() {
            Some(Status::Unknown)
        } else {
            None
        }
    } else {
        let (v, j) = match parse_pair(s, w1, s.len()) {
            None => {
                return None;
            },
            Some(x) => x,
        };
        let e = match parse_pairs_tail(s, j, s.len()) {
            None => {
                return None;
            },
            Some(e) => e,
        };
        if skip_ws(s, e) == s.len() {
            Some(
                (match v {
                    Some(text) => crate::status::status_of_value(&text),
                    None => Status::Unknown,
                }),
            )
        } else {
            None
        }
    }
}

/// The index of the first zero byte at or after `i`, or the length if none.
pub open spec fn first_zero_spec(s: Seq<u8>, i: int) -> int
    decreases s.len() - i,
{
    if 0 <= i < s.len() {
        if s[i] == 0 {
            i
        } else {
            first_zero_spec(s, i + 1)
        }
    } else {
        i
    }
}

/// The prefix of `buf` ending at the first zero byte: the health probe reads
/// into a fixed zero-filled buffer, and the padding is not part of the body.
pub fn fit_to_size(buf: &[u8]) -> (r: &[u8])
    ensures
        r@ == buf@.subrange(0, first_zero_spec(buf@, 0)),
{
    let mut i: usize = 0;
    while i < buf.len()
        invariant
            i <= buf@.len(),
            first_zero_spec(buf@, 0) == first_zero_spec(buf@, i as int),
        decreases buf@.len() - i,
    {
        if buf[i] == 0 {
            return slice_subrange(buf, 0, i);
        }
        i = i + 1;
    }
    let r = slice_subrange(buf, 0, buf.len());
    proof {
        assert(r@ =~= buf@.subrange(0, first_zero_spec(buf@, 0)));
    }
    r
}

} // verus!
