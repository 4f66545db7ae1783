# enc

AES-256-GCM encryption of files and folders, as a verified Verus library
(`src/`) and a thin command-line shell around it (`app/`).

Blob layouts:

- key mode (written): `ENC1 | 0x01 | IV(12) | ciphertext | tag(16)`
- key mode, legacy (read only): version `0x02`, whose payload is `SHA-256(data) | data`
- password mode: `ENC1 | 0x03 | salt(16) | IV(12) | ciphertext | tag(16)`,
  key = scrypt(password, salt, N = 2^15, r = 8, p = 1)

The header (and the salt) is the AES-GCM associated data.

Modules of `src/`:

- `layout`: constants, the magic, `peek_version`, `looks_like_tar`
- `primitives`: AES-GCM, SHA-256, scrypt, the random source and hex, behind trusted wrappers
- `stdtext`: text operations (trim, parse, compare) verified against what std documents, and the path file name
- `keymode`, `password`: encryption and decryption in each mode
- `genpass`: random passwords by rejection sampling
- `keys`: key text, key choice, SHA-256 checks
- `naming`, `size`, `cli`: output paths beside the input, human-readable sizes, the command-line decisions
