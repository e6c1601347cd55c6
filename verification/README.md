# Fish S2

Speech from text, with the logic of the program verified by Verus.

`src/` is the library. Its parts:

- model files: `gguf`, `gguf_read`, `gguf_prefix`, `gguf_summary`, `models`, `registry`, `codec_registry`
- text and tokens: `text`, `number`, `json`, `tokenizer`, `tokenizer_file`, `patterns`,
  `outside_tokenizer`, `tokenizer_s2cpp`, `word_breaks`, `prompt`
- transformers: `attention`, `backend`, `matmul`, `tensor`, `slow_*`, `fast_*`
- speech: `sampling`, `chosen`, `generate`, `speech`, `repeatable`
- the codec: `conv`, `convolve`, `single`, `transpose`, `codec_*`, `rvq`, `rvq_codes`, `waveform`
- sound files: `pcm`, `wav`, `wav_mono`, `wav_check`
- the program: `config`, `paths`, `engine`, `pipeline`, `studio`, `studio_work`, `cli`, `args`,
  `programs`, `dumps`

The library computes on values of any type. What is done to them, an addition or a cosine, is an
`Op` that a `Calc` carries out; contracts say which operations lead from the input to the result,
and in which order. The program in `app/` carries them out in single precision.

Model files are read whole: functions that need a tensor take the bytes of the file.
