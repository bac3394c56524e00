# syftbox_crypto_protocol

Key management and key agreement for SyftBox end-to-end encryption, with
its command line (`sbc`), verified with Verus.

The library (`src/`) holds the logic and its proofs:

- `keys`: the recovery key (hex and BIP39 forms, entropy rule, HKDF
  derivation), the private keys and the signed public bundle;
- `x3dh`: sender and recipient sides of the X3DH agreement;
- `serialization`, `json`: DID documents and private-key JWKS as JSON
  values, with round-trip guarantees;
- `replay`: the bounded replay cache and the replay check;
- `context`: vault, data root and shadow root resolution, identity slugs,
  key-file identities, temporary file names;
- `commands`, `plans`, `reports`, `checks`: the `sbc` arguments, the plans
  and reports the commands print, and the decisions they take before
  writing (TOFU bundle pinning, overwrite guards, archive path safety);
- `crypto`, `encoding`, `text`, `format`: the primitives (Ed25519, X25519,
  HKDF-SHA256, SHA-256, hex, base64url, BIP39, RNG) behind trusted
  wrappers, and verified text and number rendering.

`app/` is the `sbc` binary: argument parsing, environment, file system,
archives and JSON files, calling the library for every decision.

`tests/` exercises the library on concrete values.

## Commands that do not run in this build

Identity material generation, bundle parsing, SBC envelope sealing and
opening, and datasite byte storage are not part of this project's sources.
The commands that need them stop with a "not available in this build"
error at the step that needs them:

- `sbc key generate`, `sbc key import`, `sbc key verify`;
- `sbc file encrypt`;
- `sbc file decrypt` and `sbc file inspect` on an SBC envelope (files
  without the envelope header are still handled);
- `sbc bytes write`, `sbc bytes read`.

The decisions these commands take before and around those steps (plans,
overwrite guards, TOFU bundle pinning, recipient and identity checks,
replay protection) are in the library and verified all the same.
