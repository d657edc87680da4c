# identify_ntlm

Identify by NTLM: reads the user, domain and workstation of an NTLM
AUTHENTICATE (type 3) message, and vouches for none of them. The message rides
along as proof, for whoever holds the stored hash.

`src/` is a Verus library. Every executable function states its result over a
model of plain sequences, and `src/laws/` proves what holds across them.

| module | what it holds |
| --- | --- |
| `names` | the names of properties, evidence and proofs |
| `text` | UTF-16, single-byte text, ASCII case, white space |
| `message` | the layout of a message, `Authenticate::parse`, where the client's half of the NT response lies |
| `encoding` | base64, through the crate of that name |
| `arrival` | how a stream came in, and what it offers under which scheme |
| `challenge` | the target that the client's half of a response names |
| `claim` | the claim with its evidence and proofs |
| `identify` | `Ntlm::identify`, from the arrival to the claim |
| `laws` | what holds of reading a message and of presenting a claim |

`app/` puts the library behind the identify capability's trait: it looks the
properties up, takes the header apart, and answers for principal names and for
the attribute and value pairs of a response.

What is trusted: `base64`'s decoder, whose result has a name and no other
description, and four functions of the standard library (`char::from_u32`,
`String::push`, `str::eq_ignore_ascii_case`, `str::trim`), as they are
documented.
