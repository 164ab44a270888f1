//! The response decoder: reads a frame header, takes exactly the declared
//! body, and dispatches on the opcode to parse the typed response body,
//! including the nested result-set sub-format.
//!
//! Every executable reader is pinned to a specification parser over the
//! byte sequence, so what `read_message` returns is exactly what the
//! specification says those bytes mean.

use vstd::prelude::*;

verus! {

use vstd::utf8::{decode_utf8, valid_utf8};
use crate::codec::{
    bytes_to_string,
    DecodeError,
    parse_bytes,
    parse_short_string,
    parse_u16,
    parse_u32,
    read_bytes,
    read_short_string,
    read_u16,
    read_u32,
    u32_of,
};
use crate::message::{
    Column,
    ColumnSpec,
    ColumnView,
    Response,
    ResponseView,
    ResultBody,
    ResultBodyView,
    Row,
};

/// The fixed 8-byte envelope of every frame.
#[derive(Clone, Copy, PartialEq, Eq, Structural, Debug)]
pub struct FrameHeader {
    pub version: u8,
    pub flags: u8,
    pub stream: i8,
    pub opcode: u8,
    pub length: u32,
}

/// Parses the frame header from the first eight bytes.
pub open spec fn parse_header(b: Seq<u8>) -> Option<FrameHeader> {
    if b.len() >= 8 {
        Some(
            FrameHeader {
                version: b[0],
                flags: b[1],
                stream: b[2] as i8,
                opcode: b[3],
                length: u32_of(b[4], b[5], b[6], b[7]),
            },
        )
    } else {
        None
    }
}

/// Parses an error response body: a 32-bit code, then a short-string
/// message.  A malformed-UTF-8 message becomes a fixed sentinel rather
/// than a failure: error responses must always be representable.
pub open spec fn parse_error_body(b: Seq<u8>) -> Result<(u32, Seq<char>), DecodeError> {
    match parse_u32(b, 0) {
        Some((code, i)) => match parse_u16(b, i) {
            Some((n, j)) => match parse_bytes(b, j, n as int) {
                Some((bs, _)) => Ok(
                    (
                        code,
                        if valid_utf8(bs) {
                            decode_utf8(bs)
                        } else {
                            "couldn't parse"@
                        },
                    ),
                ),
                None => Err(DecodeError::Framing),
            },
            None => Err(DecodeError::Framing),
        },
        None => Err(DecodeError::Framing),
    }
}

/// Parses one cell: a 32-bit length, then exactly that many bytes, decoded
/// by the column's type tag.  The float and int tags need exactly four
/// bytes; every other tag decodes the bytes as UTF-8 text, whose failure is
/// a decode failure, never an empty value.
pub open spec fn parse_cell(b: Seq<u8>, i: int, tag: u16) -> Result<(ColumnView, int), DecodeError> {
    match parse_u32(b, i) {
        Some((n, j)) => match parse_bytes(b, j, n as int) {
            Some((bs, k)) => if tag == 8 {
                if n == 4 {
                    Ok((ColumnView::CqlFloat(u32_of(bs[0], bs[1], bs[2], bs[3])), k))
                } else {
                    Err(DecodeError::Framing)
                }
            } else if tag == 9 {
                if n == 4 {
                    Ok((ColumnView::CqlInt(u32_of(bs[0], bs[1], bs[2], bs[3]) as i32), k))
                } else {
                    Err(DecodeError::Framing)
                }
            } else {
                if valid_utf8(bs) {
                    Ok((ColumnView::CqlString(decode_utf8(bs)), k))
                } else {
                    Err(DecodeError::BadUtf8)
                }
            },
            None => Err(DecodeError::Framing),
        },
        None => Err(DecodeError::Framing),
    }
}

/// Parses `n` column specifications: a short-string name and a 16-bit type
/// tag each.
pub open spec fn parse_colspecs(b: Seq<u8>, i: int, n: nat) -> Result<
    (Seq<(Seq<char>, u16)>, int),
    DecodeError,
>
    decreases n,
{
    if n == 0 {
        Ok((Seq::empty(), i))
    } else {
        match parse_short_string(b, i) {
            Ok((name, j)) => match parse_u16(b, j) {
                Some((tag, k)) => match parse_colspecs(b, k, (n - 1) as nat) {
                    Ok((rest, end)) => Ok((seq![(name, tag)] + rest, end)),
                    Err(e) => Err(e),
                },
                None => Err(DecodeError::Framing),
            },
            Err(e) => Err(e),
        }
    }
}

/// Parses one row: one cell per declared column, in declared order, each
/// keyed by its column's name.
pub open spec fn parse_row(b: Seq<u8>, i: int, specs: Seq<(Seq<char>, u16)>) -> Result<
    (Seq<(Seq<char>, ColumnView)>, int),
    DecodeError,
>
    decreases specs.len(),
{
    if specs.len() == 0 {
        Ok((Seq::empty(), i))
    } else {
        match parse_cell(b, i, specs[0].1) {
            Ok((v, j)) => match parse_row(b, j, specs.drop_first()) {
                Ok((rest, end)) => Ok((seq![(specs[0].0, v)] + rest, end)),
                Err(e) => Err(e),
            },
            Err(e) => Err(e),
        }
    }
}

/// Parses `n` rows, in server order.
pub open spec fn parse_rows(b: Seq<u8>, i: int, specs: Seq<(Seq<char>, u16)>, n: nat) -> Result<
    (Seq<Seq<(Seq<char>, ColumnView)>>, int),
    DecodeError,
>
    decreases n,
{
    if n == 0 {
        Ok((Seq::empty(), i))
    } else {
        match parse_row(b, i, specs) {
            Ok((row, j)) => match parse_rows(b, j, specs, (n - 1) as nat) {
                Ok((rest, end)) => Ok((seq![row] + rest, end)),
                Err(e) => Err(e),
            },
            Err(e) => Err(e),
        }
    }
}

/// Parses a result body, dispatched on the 32-bit result type.  The rows
/// form assumes the global table specification; an unrecognized result
/// type is Void, never a failure.
pub open spec fn parse_result_body(b: Seq<u8>) -> Result<ResultBodyView, DecodeError> {
    match parse_u32(b, 0) {
        Some((rtype, i)) => if rtype == 2 {
            match parse_u32(b, i) {
                Some((_flags, j)) => match parse_u32(b, j) {
                    Some((colcount, k)) => match parse_short_string(b, k) {
                        Ok((_keyspace, l)) => match parse_short_string(b, l) {
                            Ok((_table, m)) => match parse_colspecs(b, m, colcount as nat) {
                                Ok((specs, p)) => match parse_u32(b, p) {
                                    Some((rowcount, q)) => match parse_rows(
                                        b,
                                        q,
                                        specs,
                                        rowcount as nat,
                                    ) {
                                        Ok((rows, _)) => Ok(ResultBodyView::Rows(rows)),
                                        Err(e) => Err(e),
                                    },
                                    None => Err(DecodeError::Framing),
                                },
                                Err(e) => Err(e),
                            },
                            Err(e) => Err(e),
                        },
                        Err(e) => Err(e),
                    },
                    None => Err(DecodeError::Framing),
                },
                None => Err(DecodeError::Framing),
            }
        } else if rtype == 3 {
            match parse_short_string(b, i) {
                Ok((name, _)) => Ok(ResultBodyView::SetKeyspace(name)),
                Err(e) => Err(e),
            }
        } else if rtype == 4 {
            Ok(ResultBodyView::Prepared)
        } else if rtype == 5 {
            match parse_short_string(b, i) {
                Ok((change, j)) => match parse_short_string(b, j) {
                    Ok((keyspace, k)) => match parse_short_string(b, k) {
                        Ok((table, _)) => Ok(ResultBodyView::SchemaChange(change, keyspace, table)),
                        Err(e) => Err(e),
                    },
                    Err(e) => Err(e),
                },
                Err(e) => Err(e),
            }
        } else {
            Ok(ResultBodyView::Void)
        },
        None => Err(DecodeError::Framing),
    }
}

/// Parses a response body by opcode.  Unrecognized opcodes are the
/// explicit `Empty` fallback, never a failure.
pub open spec fn parse_body(opcode: u8, b: Seq<u8>) -> Result<ResponseView, DecodeError> {
    if opcode == 0x00 {
        match parse_error_body(b) {
            Ok((code, msg)) => Ok(ResponseView::Error(code, msg)),
            Err(e) => Err(e),
        }
    } else if opcode == 0x02 {
        Ok(ResponseView::Ready)
    } else if opcode == 0x03 {
        match parse_short_string(b, 0) {
            Ok((msg, _)) => Ok(ResponseView::Authenticate(msg)),
            Err(e) => Err(e),
        }
    } else if opcode == 0x06 {
        Ok(ResponseView::Supported)
    } else if opcode == 0x08 {
        match parse_result_body(b) {
            Ok(rb) => Ok(ResponseView::Result(rb)),
            Err(e) => Err(e),
        }
    } else {
        Ok(ResponseView::Empty)
    }
}

/// Parses one whole frame: the header, then exactly the declared number of
/// body bytes, then the body.  A body shorter than declared is a framing
/// failure, never a short response.
pub open spec fn parse_response(b: Seq<u8>) -> Result<ResponseView, DecodeError> {
    match parse_header(b) {
        Some(h) => if 8 + h.length <= b.len() {
            parse_body(h.opcode, b.subrange(8, 8 + h.length as int))
        } else {
            Err(DecodeError::Framing)
        },
        None => Err(DecodeError::Framing),
    }
}

/// The executable decoder returns exactly what the specification parser
/// says, value for value and error for error.
pub open spec fn response_result_matches(
    r: Result<Response, DecodeError>,
    s: Result<ResponseView, DecodeError>,
) -> bool {
    match (r, s) {
        (Ok(resp), Ok(v)) => resp@ == v,
        (Err(e1), Err(e2)) => e1 == e2,
        _ => false,
    }
}

/// A frame that declares more body bytes than are available decodes to a
/// framing error, never to a truncated response.
pub proof fn lemma_short_body_framing(b: Seq<u8>)
    requires
        b.len() >= 8,
        8 + u32_of(b[4], b[5], b[6], b[7]) > b.len(),
    ensures
        parse_response(b) == Err::<ResponseView, DecodeError>(DecodeError::Framing),
{
}

/// Reads the fixed frame header from the first eight bytes.
pub fn decode_header(buf: &Vec<u8>) -> (r: Result<FrameHeader, DecodeError>)
    ensures
        match parse_header(buf@) {
            Some(h) => r == Ok::<FrameHeader, DecodeError>(h),
            None => r == Err::<FrameHeader, DecodeError>(DecodeError::Framing),
        },
{
    if buf.len() < 8 {
        return Err(DecodeError::Framing);
    }
    let length = (buf[4] as u32) * 0x1000000 + (buf[5] as u32) * 0x10000 + (buf[6] as u32) * 256 + (
    buf[7] as u32);
    Ok(
        FrameHeader {
            version: buf[0],
            flags: buf[1],
            stream: buf[2] as i8,
            opcode: buf[3],
            length,
        },
    )
}

/// Decodes an error response body, preserving the code and, where its
/// bytes are well-formed, the message.
pub fn read_error_response(body: &Vec<u8>) -> (r: Result<Response, DecodeError>)
    ensures
        match parse_error_body(body@) {
            Ok(cm) => r matches Ok(resp) && resp matches Response::Error(code, msg) && code == cm.0
                && msg@ == cm.1,
            Err(e) => r == Err::<Response, DecodeError>(e),
        },
{
    let mut pos: usize = 0;
    let code = match read_u32(body, &mut pos) {
        Some(v) => v,
        None => {
            return Err(DecodeError::Framing);
        },
    };
    let n = match read_u16(body, &mut pos) {
        Some(v) => v,
        None => {
            return Err(DecodeError::Framing);
        },
    };
    let bs = match read_bytes(body, &mut pos, n as usize) {
        Some(v) => v,
        None => {
            return Err(DecodeError::Framing);
        },
    };
    let msg = match bytes_to_string(bs) {
        Some(s) => s,
        None => "couldn't parse".to_owned(),
    };
    Ok(Response::Error(code, msg))
}

/// Reads one cell, advancing the cursor on success.
fn read_cell(buf: &Vec<u8>, pos: &mut usize, tag: u16) -> (r: Result<Column, DecodeError>)
    ensures
        match parse_cell(buf@, *old(pos) as int, tag) {
            Ok(vj) => r matches Ok(c) && c@ == vj.0 && *final(pos) as int == vj.1,
            Err(e) => r == Err::<Column, DecodeError>(e),
        },
{
    let n = match read_u32(buf, pos) {
        Some(v) => v,
        None => {
            return Err(DecodeError::Framing);
        },
    };
    let bs = match read_bytes(buf, pos, n as usize) {
        Some(v) => v,
        None => {
            return Err(DecodeError::Framing);
        },
    };
    if tag == 8 {
        if n == 4 {
            let v = (bs[0] as u32) * 0x1000000 + (bs[1] as u32) * 0x10000 + (bs[2] as u32) * 256 + (
            bs[3] as u32);
            Ok(Column::CqlFloat(v))
        } else {
            Err(DecodeError::Framing)
        }
    } else if tag == 9 {
        if n == 4 {
            let v = (bs[0] as u32) * 0x1000000 + (bs[1] as u32) * 0x10000 + (bs[2] as u32) * 256 + (
            bs[3] as u32);
            Ok(Column::CqlInt(v as i32))
        } else {
            Err(DecodeError::Framing)
        }
    } else {
        match bytes_to_string(bs) {
            Some(s) => Ok(Column::CqlString(s)),
            None => Err(DecodeError::BadUtf8),
        }
    }
}

/// The column specifications a vector of them stands for.
pub open spec fn colspec_views(specs: Seq<ColumnSpec>) -> Seq<(Seq<char>, u16)> {
    specs.map_values(|s: ColumnSpec| (s.name@, s.col_type))
}

/// Reads `n` column specifications, advancing the cursor on success.
fn read_colspecs(buf: &Vec<u8>, pos: &mut usize, n: u32) -> (r: Result<Vec<ColumnSpec>, DecodeError>)
    ensures
        match parse_colspecs(buf@, *old(pos) as int, n as nat) {
            Ok(re) => r matches Ok(specs) && colspec_views(specs@) == re.0 && *final(pos) as int
                == re.1,
            Err(e) => r == Err::<Vec<ColumnSpec>, DecodeError>(e),
        },
{
    let ghost start: int = *pos as int;
    let mut specs: Vec<ColumnSpec> = Vec::new();
    let mut k: u32 = 0;
    proof {
        assert(colspec_views(specs@) =~= Seq::<(Seq<char>, u16)>::empty());
    }
    while k < n
        invariant
            k <= n,
            start == *old(pos) as int,
            specs@.len() == k as int,
            ({
                let vs = colspec_views(specs@);
                match parse_colspecs(buf@, *pos as int, (n - k) as nat) {
                    Ok(re) => parse_colspecs(buf@, start, n as nat) == Ok::<
                        (Seq<(Seq<char>, u16)>, int),
                        DecodeError,
                    >((vs + re.0, re.1)),
                    Err(e) => parse_colspecs(buf@, start, n as nat) == Err::<
                        (Seq<(Seq<char>, u16)>, int),
                        DecodeError,
                    >(e),
                }
            }),
        decreases n - k,
    {
        let ghost vs_before = colspec_views(specs@);
        let name = match read_short_string(buf, pos) {
            Ok(s) => s,
            Err(e) => {
                return Err(e);
            },
        };
        let tag = match read_u16(buf, pos) {
            Some(v) => v,
            None => {
                return Err(DecodeError::Framing);
            },
        };
        let ghost gname: Seq<char> = name@;
        specs.push(ColumnSpec { name, col_type: tag });
        k = k + 1;
        proof {
            assert(colspec_views(specs@) =~= vs_before.push((gname, tag)));
            if let Ok(re) = parse_colspecs(buf@, *pos as int, (n - k) as nat) {
                assert(vs_before + (seq![(gname, tag)] + re.0) =~= colspec_views(specs@) + re.0);
            }
        }
    }
    proof {
        assert(colspec_views(specs@) + Seq::<(Seq<char>, u16)>::empty() =~= colspec_views(specs@));
    }
    Ok(specs)
}

/// Reads one row: one cell per column specification, in declared order,
/// keyed by the specification's name.
fn read_row(buf: &Vec<u8>, pos: &mut usize, specs: &Vec<ColumnSpec>) -> (r: Result<
    Row,
    DecodeError,
>)
    ensures
        match parse_row(buf@, *old(pos) as int, colspec_views(specs@)) {
            Ok(re) => r matches Ok(row) && row@ == re.0 && *final(pos) as int == re.1,
            Err(e) => r == Err::<Row, DecodeError>(e),
        },
{
    let ghost start: int = *pos as int;
    let ghost vs = colspec_views(specs@);
    let n = specs.len();
    let mut columns: Vec<(String, Column)> = Vec::new();
    let mut i: usize = 0;
    proof {
        assert(vs.skip(0) =~= vs);
    }
    while i < n
        invariant
            i <= n,
            n == specs@.len(),
            start == *old(pos) as int,
            vs == colspec_views(specs@),
            columns@.len() == i as int,
            ({
                let cols = columns@.map_values(|kv: (String, Column)| (kv.0@, kv.1@));
                match parse_row(buf@, *pos as int, vs.skip(i as int)) {
                    Ok(re) => parse_row(buf@, start, vs) == Ok::<
                        (Seq<(Seq<char>, ColumnView)>, int),
                        DecodeError,
                    >((cols + re.0, re.1)),
                    Err(e) => parse_row(buf@, start, vs) == Err::<
                        (Seq<(Seq<char>, ColumnView)>, int),
                        DecodeError,
                    >(e),
                }
            }),
        decreases n - i,
    {
        let ghost cols_before = columns@.map_values(|kv: (String, Column)| (kv.0@, kv.1@));
        proof {
            assert(vs.skip(i as int)[0] == vs[i as int]);
            assert(vs.skip(i as int).drop_first() =~= vs.skip(i as int + 1));
            assert(vs[i as int] == (specs@[i as int].name@, specs@[i as int].col_type));
        }
        let spec = &specs[i];
        let cell = match read_cell(buf, pos, spec.col_type) {
            Ok(c) => c,
            Err(e) => {
                return Err(e);
            },
        };
        let ghost gcell = cell@;
        let name = spec.name.clone();
        let ghost gname: Seq<char> = name@;
        columns.push((name, cell));
        i = i + 1;
        proof {
            assert(columns@.map_values(|kv: (String, Column)| (kv.0@, kv.1@)) =~= cols_before.push(
                (gname, gcell),
            ));
            if let Ok(re) = parse_row(buf@, *pos as int, vs.skip(i as int)) {
                assert(cols_before + (seq![(gname, gcell)] + re.0) =~= cols_before.push(
                    (gname, gcell),
                ) + re.0);
            }
        }
    }
    proof {
        assert(vs.skip(n as int) =~= Seq::<(Seq<char>, u16)>::empty());
        assert(columns@.map_values(|kv: (String, Column)| (kv.0@, kv.1@)) + Seq::<
            (Seq<char>, ColumnView),
        >::empty() =~= columns@.map_values(|kv: (String, Column)| (kv.0@, kv.1@)));
    }
    Ok(Row { columns })
}

/// Reads `n` rows, advancing the cursor on success.
fn read_rows(buf: &Vec<u8>, pos: &mut usize, specs: &Vec<ColumnSpec>, n: u32) -> (r: Result<
    Vec<Row>,
    DecodeError,
>)
    ensures
        match parse_rows(buf@, *old(pos) as int, colspec_views(specs@), n as nat) {
            Ok(re) => r matches Ok(rows) && (rows@.map_values(|x: Row| x@) == re.0)
                && *final(pos) as int == re.1,
            Err(e) => r == Err::<Vec<Row>, DecodeError>(e),
        },
{
    let ghost start: int = *pos as int;
    let ghost vs = colspec_views(specs@);
    let mut rows: Vec<Row> = Vec::new();
    let mut k: u32 = 0;
    proof {
        assert(rows@.map_values(|x: Row| x@) =~= Seq::<Seq<(Seq<char>, ColumnView)>>::empty());
    }
    while k < n
        invariant
            k <= n,
            start == *old(pos) as int,
            vs == colspec_views(specs@),
            rows@.len() == k as int,
            ({
                let rvs = rows@.map_values(|x: Row| x@);
                match parse_rows(buf@, *pos as int, vs, (n - k) as nat) {
                    Ok(re) => parse_rows(buf@, start, vs, n as nat) == Ok::<
                        (Seq<Seq<(Seq<char>, ColumnView)>>, int),
                        DecodeError,
                    >((rvs + re.0, re.1)),
                    Err(e) => parse_rows(buf@, start, vs, n as nat) == Err::<
                        (Seq<Seq<(Seq<char>, ColumnView)>>, int),
                        DecodeError,
                    >(e),
                }
            }),
        decreases n - k,
    {
        let ghost rvs_before = rows@.map_values(|x: Row| x@);
        let row = match read_row(buf, pos, specs) {
            Ok(r) => r,
            Err(e) => {
                return Err(e);
            },
        };
        let ghost grow = row@;
        rows.push(row);
        k = k + 1;
        proof {
            assert(rows@.map_values(|x: Row| x@) =~= rvs_before.push(grow));
            if let Ok(re) = parse_rows(buf@, *pos as int, vs, (n - k) as nat) {
                assert(rvs_before + (seq![grow] + re.0) =~= rvs_before.push(grow) + re.0);
            }
        }
    }
    proof {
        assert(rows@.map_values(|x: Row| x@) + Seq::<Seq<(Seq<char>, ColumnView)>>::empty()
            =~= rows@.map_values(|x: Row| x@));
    }
    Ok(rows)
}

/// Decodes a result response body: the 32-bit result type, then its
/// type-specific payload.
pub fn read_result(body: &Vec<u8>) -> (r: Result<Response, DecodeError>)
    ensures
        match parse_result_body(body@) {
            Ok(v) => r matches Ok(resp) && resp matches Response::Result(rb) && rb@ == v,
            Err(e) => r == Err::<Response, DecodeError>(e),
        },
{
    let mut pos: usize = 0;
    let result_type = match read_u32(body, &mut pos) {
        Some(v) => v,
        None => {
            return Err(DecodeError::Framing);
        },
    };
    if result_type == 2 {
        let _flags = match read_u32(body, &mut pos) {
            Some(v) => v,
            None => {
                return Err(DecodeError::Framing);
            },
        };
        let column_count = match read_u32(body, &mut pos) {
            Some(v) => v,
            None => {
                return Err(DecodeError::Framing);
            },
        };
        let _keyspace = match read_short_string(body, &mut pos) {
            Ok(s) => s,
            Err(e) => {
                return Err(e);
            },
        };
        let _table = match read_short_string(body, &mut pos) {
            Ok(s) => s,
            Err(e) => {
                return Err(e);
            },
        };
        let specs = match read_colspecs(body, &mut pos, column_count) {
            Ok(s) => s,
            Err(e) => {
                return Err(e);
            },
        };
        let row_count = match read_u32(body, &mut pos) {
            Some(v) => v,
            None => {
                return Err(DecodeError::Framing);
            },
        };
        let rows = match read_rows(body, &mut pos, &specs, row_count) {
            Ok(r) => r,
            Err(e) => {
                return Err(e);
            },
        };
        Ok(Response::Result(ResultBody::Rows(rows)))
    } else if result_type == 3 {
        let name = match read_short_string(body, &mut pos) {
            Ok(s) => s,
            Err(e) => {
                return Err(e);
            },
        };
        Ok(Response::Result(ResultBody::SetKeyspace(name)))
    } else if result_type == 4 {
        Ok(Response::Result(ResultBody::Prepared))
    } else if result_type == 5 {
        let change = match read_short_string(body, &mut pos) {
            Ok(s) => s,
            Err(e) => {
                return Err(e);
            },
        };
        let keyspace = match read_short_string(body, &mut pos) {
            Ok(s) => s,
            Err(e) => {
                return Err(e);
            },
        };
        let table = match read_short_string(body, &mut pos) {
            Ok(s) => s,
            Err(e) => {
                return Err(e);
            },
        };
        Ok(Response::Result(ResultBody::SchemaChange(change, keyspace, table)))
    } else {
        Ok(Response::Result(ResultBody::Void))
    }
}

/// Decodes a response body by opcode.
pub fn decode_body(opcode: u8, body: &Vec<u8>) -> (r: Result<Response, DecodeError>)
    ensures
        response_result_matches(r, parse_body(opcode, body@)),
{
    if opcode == 0x00 {
        read_error_response(body)
    } else if opcode == 0x02 {
        Ok(Response::Ready)
    } else if opcode == 0x03 {
        let mut pos: usize = 0;
        match read_short_string(body, &mut pos) {
            Ok(s) => Ok(Response::Authenticate(s)),
            Err(e) => Err(e),
        }
    } else if opcode == 0x06 {
        Ok(Response::Supported)
    } else if opcode == 0x08 {
        read_result(body)
    } else {
        Ok(Response::Empty)
    }
}

/// Decodes one whole frame held in a buffer: the header, then exactly the
/// declared number of body bytes, then the body by opcode.
pub fn read_message(frame: &Vec<u8>) -> (r: Result<Response, DecodeError>)
    ensures
        response_result_matches(r, parse_response(frame@)),
{
    let header = match decode_header(frame) {
        Ok(h) => h,
        Err(e) => {
            return Err(e);
        },
    };
    let mut pos: usize = 8;
    let body = match read_bytes(frame, &mut pos, header.length as usize) {
        Some(b) => b,
        None => {
            return Err(DecodeError::Framing);
        },
    };
    decode_body(header.opcode, &body)
}

} // verus!
